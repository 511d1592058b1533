//! The portal sessions that are held, and the capturables that come from them.
use crate::capturable::{
    display_parts, division_fits, is_divisible, physical_size_of, split_workspace_capturable,
    whole_stream, PipeWireCapturable,
};
use crate::display::Displays;
use crate::errors::DBusError;
use crate::stream::PwStreamInfo;
use vstd::prelude::*;

verus! {

/// A session that the portal granted.
///
/// The application keeps the connection and the file descriptor of the session under `id`.
/// `resolution` is the physical size of the stream that was measured last.
#[derive(Debug)]
pub struct RdpSessionInfo {
    pub id: u64,
    pub streams: Vec<PwStreamInfo>,
    pub session: String,
    pub is_support_restore_token: bool,
    pub resolution: Option<(usize, usize)>,
}

/// What the process knows of its portal sessions.
///
/// `has_position_attr` tells that the positions of the streams are known, be it from the portal
/// or by search. `server_running` is `None` until it was found out.
#[derive(Debug)]
pub struct CaptureState {
    pub primary: Option<RdpSessionInfo>,
    pub extras: Vec<RdpSessionInfo>,
    pub has_position_attr: bool,
    pub server_running: Option<bool>,
    pub tried_additional_grants: bool,
}

/// A session from what the portal granted.
pub fn new_rdp_session(
    id: u64,
    streams: Vec<PwStreamInfo>,
    session: String,
    is_support_restore_token: bool,
) -> (r: RdpSessionInfo)
    ensures
        r == (RdpSessionInfo { id, streams, session, is_support_restore_token, resolution: None }),
{
    RdpSessionInfo { id, streams, session, is_support_restore_token, resolution: None }
}

impl CaptureState {
    /// Nothing is held and nothing is known.
    pub fn new() -> (r: Self)
        ensures
            r.primary is None,
            r.extras@ == Seq::<RdpSessionInfo>::empty(),
            !r.has_position_attr,
            r.server_running is None,
            !r.tried_additional_grants,
    {
        CaptureState {
            primary: None,
            extras: Vec::new(),
            has_position_attr: false,
            server_running: None,
            tried_additional_grants: false,
        }
    }

    /// No session is held, and all that is known of the last one is forgotten.
    pub open spec fn is_closed(self) -> bool {
        &&& self.primary is None
        &&& self.extras@ == Seq::<RdpSessionInfo>::empty()
        &&& !self.has_position_attr
        &&& !self.tried_additional_grants
    }
}

/// Forgets all but the primary session.
fn reset_session_state(state: &mut CaptureState)
    ensures
        final(state).primary == old(state).primary,
        final(state).server_running == old(state).server_running,
        final(state).extras@ == Seq::<RdpSessionInfo>::empty(),
        !final(state).has_position_attr,
        !final(state).tried_additional_grants,
{
    state.extras = Vec::new();
    state.has_position_attr = false;
    state.tried_additional_grants = false;
}

/// Drops all sessions. The caller then drops the cached layout too.
pub fn close_session(state: &mut CaptureState)
    ensures
        final(state).is_closed(),
        final(state).server_running == old(state).server_running,
{
    state.primary = None;
    reset_session_state(state);
}

/// Whether a session is held.
pub fn is_rdp_session_hold(state: &CaptureState) -> (r: bool)
    ensures
        r == state.primary is Some,
{
    state.primary.is_some()
}

/// The sessions need not be held after the last peer left: the server runs, the portal can
/// restore them, and the desktop is not Hyprland, where a session is kept as long as the
/// process runs, so that the user authorises once per launch.
pub open spec fn may_close(state: CaptureState, server_running: bool, hyprland: bool) -> bool {
    &&& state.primary matches Some(info) && info.is_support_restore_token
    &&& server_running
    &&& !hyprland
}

/// Drops the sessions if they need not be held. Tells whether it did; the caller then drops the
/// cached layout too.
pub fn try_close_session(state: &mut CaptureState, server_running: bool, hyprland: bool) -> (r:
    bool)
    ensures
        r == may_close(*old(state), server_running, hyprland),
        r ==> final(state).is_closed() && final(state).server_running == old(
            state,
        ).server_running,
        !r ==> *final(state) == *old(state),
{
    let close: bool = match &state.primary {
        Some(info) => server_running && info.is_support_restore_token && !hyprland,
        None => false,
    };
    if close {
        state.primary = None;
        reset_session_state(state);
    }
    close
}

/// What was measured of a stream, if it was.
pub open spec fn probed_at(probed: Seq<Option<(usize, usize)>>, i: int) -> Option<(usize, usize)> {
    if i < probed.len() {
        probed[i]
    } else {
        None
    }
}

/// The capturables of a session, one for each stream.
pub open spec fn session_capturables(
    info: RdpSessionInfo,
    probed: Seq<Option<(usize, usize)>>,
    server_running: bool,
    hyprland: bool,
) -> Seq<PipeWireCapturable> {
    Seq::new(
        info.streams@.len(),
        |i: int|
            whole_stream(
                info.id,
                info.streams@[i],
                physical_size_of(
                    info.streams@[i],
                    server_running,
                    hyprland,
                    probed_at(probed, i),
                ),
            ),
    )
}

/// A session after its streams were measured.
pub open spec fn measured(
    info: RdpSessionInfo,
    probed: Seq<Option<(usize, usize)>>,
    server_running: bool,
    hyprland: bool,
) -> RdpSessionInfo {
    let capturables = session_capturables(info, probed, server_running, hyprland);
    if capturables.len() == 0 {
        info
    } else {
        RdpSessionInfo { resolution: Some(capturables.last().physical_size), ..info }
    }
}

/// The capturables of a session. `probed` tells, stream by stream, what was measured.
pub fn capturables_from_session(
    info: &mut RdpSessionInfo,
    probed: &Vec<Option<(usize, usize)>>,
    server_running: bool,
    hyprland: bool,
) -> (r: Vec<PipeWireCapturable>)
    ensures
        r@ == session_capturables(*old(info), probed@, server_running, hyprland),
        *final(info) == measured(*old(info), probed@, server_running, hyprland),
{
    let ghost before = *info;
    let ghost all = session_capturables(before, probed@, server_running, hyprland);
    let mut resolution: Option<(usize, usize)> = info.resolution;
    let mut out: Vec<PipeWireCapturable> = Vec::new();
    let mut i: usize = 0;
    while i < info.streams.len()
        invariant
            i <= info.streams.len(),
            *info == before,
            all == session_capturables(before, probed@, server_running, hyprland),
            out@ == all.take(i as int),
            resolution == (if i == 0 {
                before.resolution
            } else {
                Some(all[i - 1].physical_size)
            }),
        decreases info.streams.len() - i,
    {
        let size: Option<(usize, usize)> = if i < probed.len() {
            probed[i]
        } else {
            None
        };
        let capturable: PipeWireCapturable = PipeWireCapturable::new(
            info.id,
            &mut resolution,
            &info.streams[i],
            server_running,
            hyprland,
            size,
        );
        assert(capturable == all[i as int]);
        assert(all.take(i + 1) =~= all.take(i as int).push(capturable));
        out.push(capturable);
        i = i + 1;
    }
    assert(all.take(all.len() as int) =~= all);
    info.resolution = resolution;
    out
}

/// What was measured of a session, if anything was.
pub open spec fn session_probed(probed: Seq<Vec<Option<(usize, usize)>>>, i: int) -> Seq<
    Option<(usize, usize)>,
> {
    if i < probed.len() {
        probed[i]@
    } else {
        seq![]
    }
}

/// The capturables of the first `n` sessions, one session after the other.
pub open spec fn sessions_capturables(
    sessions: Seq<RdpSessionInfo>,
    probed: Seq<Vec<Option<(usize, usize)>>>,
    server_running: bool,
    hyprland: bool,
    n: nat,
) -> Seq<PipeWireCapturable>
    decreases n,
{
    if n == 0 {
        seq![]
    } else {
        sessions_capturables(sessions, probed, server_running, hyprland, (n - 1) as nat)
            + session_capturables(
            sessions[n - 1],
            session_probed(probed, n - 1),
            server_running,
            hyprland,
        )
    }
}

/// Appends the capturables of the sessions that are held beside the primary one.
pub fn append_held_extra_grants(
    capturables: &mut Vec<PipeWireCapturable>,
    extras: &mut Vec<RdpSessionInfo>,
    probed: &Vec<Vec<Option<(usize, usize)>>>,
    server_running: bool,
    hyprland: bool,
)
    ensures
        final(capturables)@ == old(capturables)@ + sessions_capturables(
            old(extras)@,
            probed@,
            server_running,
            hyprland,
            old(extras)@.len(),
        ),
        final(extras)@.len() == old(extras)@.len(),
        forall|i: int|
            0 <= i < old(extras)@.len() ==> #[trigger] final(extras)@[i] == measured(
                old(extras)@[i],
                session_probed(probed@, i),
                server_running,
                hyprland,
            ),
{
    let ghost before = extras@;
    let ghost held = capturables@;
    let nothing: Vec<Option<(usize, usize)>> = Vec::new();
    let mut i: usize = 0;
    while i < extras.len()
        invariant
            i <= extras.len(),
            extras.len() == before.len(),
            nothing@ == Seq::<Option<(usize, usize)>>::empty(),
            capturables@ == held + sessions_capturables(
                before,
                probed@,
                server_running,
                hyprland,
                i as nat,
            ),
            forall|k: int|
                0 <= k < i ==> #[trigger] extras@[k] == measured(
                    before[k],
                    session_probed(probed@, k),
                    server_running,
                    hyprland,
                ),
            forall|k: int| i <= k < before.len() ==> #[trigger] extras@[k] == before[k],
        decreases extras.len() - i,
    {
        let ghost so_far = capturables@;
        let sizes: &Vec<Option<(usize, usize)>> = if i < probed.len() {
            &probed[i]
        } else {
            &nothing
        };
        let mut more: Vec<PipeWireCapturable> = capturables_from_session(
            &mut extras[i],
            sizes,
            server_running,
            hyprland,
        );
        capturables.append(&mut more);
        i = i + 1;
    }
}

/// More grants are to be requested: fewer displays are held than there are, on Hyprland while the
/// server runs, and it was not tried before.
pub open spec fn wants_more_grants(
    state: CaptureState,
    held: usize,
    display_count: usize,
    server_running: bool,
    hyprland: bool,
) -> bool {
    hyprland && server_running && !state.tried_additional_grants && held < display_count
}

/// The state after it was decided whether more grants are requested.
pub open spec fn after_wanting(
    state: CaptureState,
    server_running: bool,
    hyprland: bool,
) -> CaptureState {
    CaptureState {
        tried_additional_grants: state.tried_additional_grants || (hyprland && server_running),
        ..state
    }
}

/// Decides whether more grants are to be requested, for a portal that grants one display at a
/// time. That is tried once per session, on Hyprland while the server runs.
pub fn extend_with_additional_grants(
    state: &mut CaptureState,
    held: usize,
    display_count: usize,
    server_running: bool,
    hyprland: bool,
) -> (r: bool)
    ensures
        r == wants_more_grants(*old(state), held, display_count, server_running, hyprland),
        *final(state) == after_wanting(*old(state), server_running, hyprland),
{
    if !hyprland || !server_running {
        return false;
    }
    let tried: bool = state.tried_additional_grants;
    state.tried_additional_grants = true;
    !tried && held < display_count
}

/// Takes the answer to a request for one more grant, and decides whether to request another.
/// `None` stands for a request that failed.
pub fn take_additional_grant(
    state: &mut CaptureState,
    capturables: &mut Vec<PipeWireCapturable>,
    grant: Option<RdpSessionInfo>,
    probed: &Vec<Option<(usize, usize)>>,
    display_count: usize,
    server_running: bool,
    hyprland: bool,
) -> (r: bool)
    ensures
        match grant {
            Some(info) if info.streams@.len() > 0 => {
                &&& final(capturables)@ == old(capturables)@ + session_capturables(
                    info,
                    probed@,
                    server_running,
                    hyprland,
                )
                &&& final(state).extras@ == old(state).extras@.push(
                    measured(info, probed@, server_running, hyprland),
                )
                &&& final(state).primary == old(state).primary
                &&& final(state).has_position_attr == old(state).has_position_attr
                &&& final(state).server_running == old(state).server_running
                &&& final(state).tried_additional_grants == old(state).tried_additional_grants
                &&& r == (final(capturables)@.len() < display_count)
            },
            _ => {
                &&& !r
                &&& final(capturables)@ == old(capturables)@
                &&& *final(state) == *old(state)
            },
        },
        r ==> old(capturables)@.len() < final(capturables)@.len() < display_count,
{
    match grant {
        Some(info) => {
            if info.streams.len() == 0 {
                return false;
            }
            let mut session: RdpSessionInfo = info;
            let mut more: Vec<PipeWireCapturable> = capturables_from_session(
                &mut session,
                probed,
                server_running,
                hyprland,
            );
            capturables.append(&mut more);
            state.extras.push(session);
            capturables.len() < display_count
        },
        None => false,
    }
}

/// How sessions come to be held.
#[derive(Debug, PartialEq, Eq, Structural, Clone, Copy)]
pub enum Acquisition {
    /// A session is held already.
    Held,
    /// One session for each monitor is requested.
    PerMonitor,
    /// One session is requested.
    Single,
}

/// How sessions come to be held: none is requested while one is held; on Hyprland one is
/// requested for each monitor while the server runs.
pub open spec fn acquisition(
    state: CaptureState,
    server_running: bool,
    hyprland: bool,
) -> Acquisition {
    if state.primary is Some {
        Acquisition::Held
    } else if server_running && hyprland {
        Acquisition::PerMonitor
    } else {
        Acquisition::Single
    }
}

/// Decides how sessions come to be held.
pub fn plan_acquisition(state: &CaptureState, server_running: bool, hyprland: bool) -> (r:
    Acquisition)
    ensures
        r == acquisition(*state, server_running, hyprland),
{
    if state.primary.is_some() {
        Acquisition::Held
    } else if server_running && hyprland {
        Acquisition::PerMonitor
    } else {
        Acquisition::Single
    }
}

/// Holds one session for each monitor. No more grants are then requested.
pub fn hold_monitor_sessions(
    state: &mut CaptureState,
    primary: RdpSessionInfo,
    extras: Vec<RdpSessionInfo>,
)
    ensures
        *final(state) == (CaptureState {
            primary: Some(primary),
            extras,
            tried_additional_grants: true,
            ..*old(state)
        }),
{
    state.primary = Some(primary);
    state.extras = extras;
    state.tried_additional_grants = true;
}

/// Takes the outcome of the collection of one session for each monitor. Where it failed, one
/// session is requested instead.
pub fn take_monitor_sessions(
    state: &mut CaptureState,
    outcome: Result<(RdpSessionInfo, Vec<RdpSessionInfo>), DBusError>,
) -> (r: Acquisition)
    ensures
        match outcome {
            Ok((primary, extras)) => {
                &&& r is Held
                &&& *final(state) == (CaptureState {
                    primary: Some(primary),
                    extras,
                    tried_additional_grants: true,
                    ..*old(state)
                })
            },
            Err(_) => r is Single && *final(state) == *old(state),
        },
{
    match outcome {
        Ok((primary, extras)) => {
            hold_monitor_sessions(state, primary, extras);
            Acquisition::Held
        },
        Err(_) => Acquisition::Single,
    }
}

/// Holds one session.
pub fn hold_session(state: &mut CaptureState, primary: RdpSessionInfo)
    ensures
        *final(state) == (CaptureState { primary: Some(primary), ..*old(state) }),
{
    state.primary = Some(primary);
}

/// The capturables of all sessions that are held, those of the primary session first.
pub fn get_capturables(
    state: &mut CaptureState,
    primary_probed: &Vec<Option<(usize, usize)>>,
    extra_probed: &Vec<Vec<Option<(usize, usize)>>>,
    server_running: bool,
    hyprland: bool,
) -> (r: Result<Vec<PipeWireCapturable>, DBusError>)
    ensures
        match old(state).primary {
            Some(info) => {
                &&& r matches Ok(capturables) && capturables@ == session_capturables(
                    info,
                    primary_probed@,
                    server_running,
                    hyprland,
                ) + sessions_capturables(
                    old(state).extras@,
                    extra_probed@,
                    server_running,
                    hyprland,
                    old(state).extras@.len(),
                )
                &&& final(state).primary == Some(
                    measured(info, primary_probed@, server_running, hyprland),
                )
                &&& final(state).extras@.len() == old(state).extras@.len()
                &&& forall|i: int|
                    0 <= i < old(state).extras@.len() ==> #[trigger] final(state).extras@[i]
                        == measured(
                        old(state).extras@[i],
                        session_probed(extra_probed@, i),
                        server_running,
                        hyprland,
                    )
            },
            None => {
                &&& r matches Err(e) && e.0@ == "RDP response is None."@
                &&& final(state).primary is None
                &&& final(state).extras == old(state).extras
            },
        },
        final(state).has_position_attr == old(state).has_position_attr,
        final(state).server_running == old(state).server_running,
        final(state).tried_additional_grants == old(state).tried_additional_grants,
{
    match state.primary.take() {
        Some(info) => {
            let mut session: RdpSessionInfo = info;
            let mut capturables: Vec<PipeWireCapturable> = capturables_from_session(
                &mut session,
                primary_probed,
                server_running,
                hyprland,
            );
            state.primary = Some(session);
            append_held_extra_grants(
                &mut capturables,
                &mut state.extras,
                extra_probed,
                server_running,
                hyprland,
            );
            Ok(capturables)
        },
        None => Err(DBusError("RDP response is None.".to_owned())),
    }
}

/// The capturables that are offered: on Hyprland those of the sessions, elsewhere a single
/// stream of the whole desktop is divided among the displays.
pub open spec fn settled_capturables(
    capturables: Seq<PipeWireCapturable>,
    displays: Displays,
    hyprland: bool,
) -> Seq<PipeWireCapturable> {
    if !hyprland && capturables.len() == 1 && is_divisible(capturables[0], displays.displays@) {
        display_parts(capturables[0], displays.displays@)
    } else {
        capturables
    }
}

/// Settles which capturables are offered.
pub fn settle_capturables(
    capturables: Vec<PipeWireCapturable>,
    displays: &Displays,
    hyprland: bool,
) -> (r: Vec<PipeWireCapturable>)
    requires
        !hyprland && capturables@.len() == 1 ==> division_fits(
            capturables@[0],
            displays.displays@,
        ),
    ensures
        r@ == settled_capturables(capturables@, *displays, hyprland),
{
    if hyprland || capturables.len() != 1 {
        return capturables;
    }
    match split_workspace_capturable(capturables[0], displays) {
        Ok(parts) => parts,
        Err(_) => capturables,
    }
}

/// More grants are requested at most once while sessions are held: after it was decided, it is
/// not decided again so, whatever is held by then.
pub proof fn law_more_grants_are_requested_once(
    state: CaptureState,
    held: usize,
    display_count: usize,
    server_running: bool,
    hyprland: bool,
    later_held: usize,
    later_count: usize,
)
    requires
        wants_more_grants(state, held, display_count, server_running, hyprland),
    ensures
        !wants_more_grants(
            after_wanting(state, server_running, hyprland),
            later_held,
            later_count,
            server_running,
            hyprland,
        ),
{
}

/// On Hyprland the user authorises once per launch: a session that is held stays when the last
/// peer leaves, and the next peer is served from it without another request.
pub proof fn law_hyprland_session_is_reused(
    state: CaptureState,
    server_running: bool,
    later_running: bool,
)
    requires
        state.primary is Some,
    ensures
        !may_close(state, server_running, true),
        acquisition(state, later_running, true) is Held,
{
}

/// The capturables of a session are its streams, one for each and in their order: of the session,
/// at the node, the place and the logical size of the stream. Each has the size that was measured
/// of it, if that was done; on Hyprland, while the server runs, the size that the portal reports.
pub proof fn law_capturables_are_the_streams(
    info: RdpSessionInfo,
    probed: Seq<Option<(usize, usize)>>,
    server_running: bool,
    hyprland: bool,
    i: int,
)
    requires
        0 <= i < info.streams@.len(),
    ensures
        session_capturables(info, probed, server_running, hyprland).len() == info.streams@.len(),
        ({
            let c = session_capturables(info, probed, server_running, hyprland)[i];
            let stream = info.streams@[i];
            &&& c.session == info.id && c.path == stream.path
            &&& c.source_type == stream.source_type && c.position == stream.position
            &&& c.logical_size == stream.size && c.crop is None && !c.primary
            &&& i < probed.len() && probed[i] is Some && !(server_running && hyprland)
                ==> c.physical_size == probed[i]->0
            &&& i >= probed.len() || probed[i] is None || (server_running && hyprland)
                ==> c.physical_size == stream.size
        }),
{
}

/// A session keeps, of the sizes that were measured, that of its last stream, and changes in
/// nothing else.
pub proof fn law_last_size_is_kept(
    info: RdpSessionInfo,
    probed: Seq<Option<(usize, usize)>>,
    server_running: bool,
    hyprland: bool,
)
    ensures
        ({
            let after = measured(info, probed, server_running, hyprland);
            let n = info.streams@.len() as int;
            &&& after.id == info.id && after.streams == info.streams
            &&& after.session == info.session
            &&& after.is_support_restore_token == info.is_support_restore_token
            &&& n == 0 ==> after.resolution == info.resolution
            &&& n > 0 ==> after.resolution == Some(
                session_capturables(info, probed, server_running, hyprland)[n - 1].physical_size,
            )
        }),
{
}

/// The capturables of several sessions are those of the one after those of the others, and each is
/// that of a stream of the session whose turn it is.
pub proof fn law_sessions_follow_each_other(
    sessions: Seq<RdpSessionInfo>,
    probed: Seq<Vec<Option<(usize, usize)>>>,
    server_running: bool,
    hyprland: bool,
    n: nat,
)
    requires
        n < sessions.len(),
    ensures
        sessions_capturables(sessions, probed, server_running, hyprland, 0).len() == 0,
        sessions_capturables(sessions, probed, server_running, hyprland, n + 1)
            == sessions_capturables(sessions, probed, server_running, hyprland, n)
            + session_capturables(
            sessions[n as int],
            if n < probed.len() {
                probed[n as int]@
            } else {
                seq![]
            },
            server_running,
            hyprland,
        ),
{
}

/// On Hyprland, and wherever there is not just one, the capturables are offered as they are. A
/// single one elsewhere is offered in its parts, if it can be divided, else as it is.
pub proof fn law_offered_capturables(
    capturables: Seq<PipeWireCapturable>,
    displays: Displays,
    hyprland: bool,
)
    ensures
        hyprland || capturables.len() != 1 ==> settled_capturables(capturables, displays, hyprland)
            == capturables,
        !hyprland && capturables.len() == 1 && is_divisible(capturables[0], displays.displays@)
            ==> settled_capturables(capturables, displays, hyprland) == display_parts(
            capturables[0],
            displays.displays@,
        ),
        !hyprland && capturables.len() == 1 && !is_divisible(capturables[0], displays.displays@)
            ==> settled_capturables(capturables, displays, hyprland) == capturables,
{
}

/// Sessions are dropped after the last peer left exactly where they can be restored without asking
/// the user: the server runs, the portal knows restore tokens, and the desktop is not Hyprland.
/// What is then known of them is forgotten.
pub proof fn law_only_restorable_sessions_are_dropped(
    state: CaptureState,
    server_running: bool,
    hyprland: bool,
)
    ensures
        state.primary is None ==> !may_close(state, server_running, hyprland),
        !server_running ==> !may_close(state, server_running, hyprland),
        hyprland ==> !may_close(state, server_running, hyprland),
        state.primary is Some && !state.primary->0.is_support_restore_token ==> !may_close(
            state,
            server_running,
            hyprland,
        ),
        state.primary is Some && state.primary->0.is_support_restore_token && server_running
            && !hyprland ==> may_close(state, server_running, hyprland),
        state.is_closed() ==> state.primary is None && state.extras@.len() == 0
            && !state.has_position_attr && !state.tried_additional_grants,
{
}

/// A session that is held is reused. Without one, a session for each monitor is requested on
/// Hyprland while the server runs, and a single one everywhere else.
pub proof fn law_how_sessions_are_acquired(
    state: CaptureState,
    server_running: bool,
    hyprland: bool,
)
    ensures
        state.primary is Some ==> acquisition(state, server_running, hyprland) is Held,
        state.primary is None && server_running && hyprland ==> acquisition(
            state,
            server_running,
            hyprland,
        ) is PerMonitor,
        state.primary is None && !(server_running && hyprland) ==> acquisition(
            state,
            server_running,
            hyprland,
        ) is Single,
{
}

/// More grants are wanted on Hyprland, while the server runs, as long as fewer displays are held
/// than there are, and if that was not tried before. That it was tried is noted there, whether or
/// not more were wanted, and nothing else changes.
pub proof fn law_when_more_grants_are_wanted(
    state: CaptureState,
    held: usize,
    display_count: usize,
    server_running: bool,
    hyprland: bool,
)
    ensures
        !hyprland || !server_running ==> !wants_more_grants(
            state,
            held,
            display_count,
            server_running,
            hyprland,
        ) && after_wanting(state, server_running, hyprland) == state,
        held >= display_count ==> !wants_more_grants(
            state,
            held,
            display_count,
            server_running,
            hyprland,
        ),
        hyprland && server_running && !state.tried_additional_grants && held < display_count
            ==> wants_more_grants(state, held, display_count, server_running, hyprland),
        hyprland && server_running ==> after_wanting(state, server_running, hyprland) == (
        CaptureState { tried_additional_grants: true, ..state }),
{
}

} // verus!
