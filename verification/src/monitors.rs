//! One portal session for each monitor, for a portal that grants one monitor at a time.
use crate::display::{Displays, WaylandDisplayInfo};
use crate::errors::DBusError;
use crate::session::RdpSessionInfo;
use crate::stream::{monitor_name_for_streams, opt_text, shown_monitor, stream_views};
use crate::tokens::TokenMap;
use vstd::prelude::*;

verus! {

/// How often a grant is requested, at most, for each monitor.
pub const MAX_GRANT_ATTEMPTS_PER_MONITOR: usize = 2;

/// Texts as characters.
pub open spec fn text_views(texts: Seq<String>) -> Seq<Seq<char>> {
    texts.map_values(|t: String| t@)
}

/// The names of displays.
pub open spec fn display_names(ds: Seq<WaylandDisplayInfo>) -> Seq<Seq<char>> {
    ds.map_values(|d: WaylandDisplayInfo| d.name@)
}

/// The collection of sessions as a mathematical value.
pub ghost struct MonitorGrants {
    /// The names of all monitors.
    pub monitors: Seq<Seq<char>>,
    /// The saved tokens.
    pub saved: Map<Seq<char>, Seq<char>>,
    /// The sessions that were granted, each for another monitor.
    pub sessions: Seq<RdpSessionInfo>,
    /// The monitors that these sessions show.
    pub covered: Seq<Seq<char>>,
    /// The monitors that were requested at least once.
    pub tried: Seq<Seq<char>>,
    /// The number of requests so far.
    pub attempts: nat,
    /// The monitor of the request that is not answered yet.
    pub requested: Option<Seq<char>>,
    /// No more requests are made after one that failed.
    pub stopped: bool,
}

/// The first of some texts that is not among others.
pub open spec fn first_missing(texts: Seq<Seq<char>>, others: Seq<Seq<char>>) -> Option<Seq<char>>
    decreases texts.len(),
{
    if texts.len() == 0 {
        None
    } else if !others.contains(texts[0]) {
        Some(texts[0])
    } else {
        first_missing(texts.drop_first(), others)
    }
}

impl MonitorGrants {
    /// At the start nothing is covered and nothing was tried.
    pub open spec fn start(monitors: Seq<Seq<char>>, saved: Map<Seq<char>, Seq<char>>) -> Self {
        MonitorGrants {
            monitors,
            saved,
            sessions: seq![],
            covered: seq![],
            tried: seq![],
            attempts: 0,
            requested: None,
            stopped: false,
        }
    }

    /// The monitor to request next: the first that is not covered, as long as attempts are left
    /// and no request failed.
    pub open spec fn target(self) -> Option<Seq<char>> {
        if self.stopped || self.attempts >= self.monitors.len() * MAX_GRANT_ATTEMPTS_PER_MONITOR {
            None
        } else {
            first_missing(self.monitors, self.covered)
        }
    }

    /// The saved token that goes with the request for a monitor. It is offered only once: a stale
    /// token that restores some other monitor would otherwise be replayed on every attempt.
    pub open spec fn offered_token(self, monitor: Seq<char>) -> Option<Seq<char>> {
        if !self.tried.contains(monitor) && self.saved.contains_key(monitor) {
            Some(self.saved[monitor])
        } else {
            None
        }
    }

    /// After a request, or unchanged where there is none to make.
    pub open spec fn after_request(self) -> Self {
        match self.target() {
            Some(monitor) => MonitorGrants {
                attempts: self.attempts + 1,
                tried: if self.tried.contains(monitor) {
                    self.tried
                } else {
                    self.tried.push(monitor)
                },
                requested: Some(monitor),
                ..self
            },
            None => self,
        }
    }

    /// The monitor that was granted, which need not be the one that was requested: the one that
    /// the streams show, else the requested one.
    pub open spec fn granted(self, shown: Option<Seq<char>>) -> Seq<char> {
        match shown {
            Some(name) => name,
            None => self.requested->0,
        }
    }

    /// After the answer to a request. `shown` is the monitor that the granted streams show, if it
    /// can be told.
    pub open spec fn after_grant(self, grant: Option<RdpSessionInfo>, shown: Option<Seq<char>>) -> Self {
        match grant {
            Some(info) if info.streams@.len() > 0 => if self.covered.contains(self.granted(shown)) {
                MonitorGrants { requested: None, ..self }
            } else {
                MonitorGrants {
                    requested: None,
                    covered: self.covered.push(self.granted(shown)),
                    sessions: self.sessions.push(info),
                    ..self
                }
            },
            _ => MonitorGrants { requested: None, stopped: true, ..self },
        }
    }
}

/// A request for the grant of a monitor, with the token by which the portal may restore it.
#[derive(Debug)]
pub struct GrantRequest {
    pub monitor: String,
    pub token: Option<String>,
}

/// What becomes of a grant.
#[derive(Debug)]
pub enum GrantOutcome {
    /// The session is kept.
    Kept,
    /// The monitor is covered already: the session is to be closed.
    Duplicate(RdpSessionInfo),
    /// No more requests are made.
    Stopped,
}

/// The collection of one session for each monitor.
#[derive(Debug)]
pub struct MonitorSessions {
    monitors: Vec<String>,
    saved: TokenMap,
    sessions: Vec<RdpSessionInfo>,
    covered: Vec<String>,
    tried: Vec<String>,
    attempts: u128,
    requested: Option<String>,
    stopped: bool,
}

impl View for MonitorSessions {
    type V = MonitorGrants;

    closed spec fn view(&self) -> MonitorGrants {
        MonitorGrants {
            monitors: text_views(self.monitors@),
            saved: self.saved@,
            sessions: self.sessions@,
            covered: text_views(self.covered@),
            tried: text_views(self.tried@),
            attempts: self.attempts as nat,
            requested: opt_text(self.requested),
            stopped: self.stopped,
        }
    }
}

/// Whether a text is among others.
fn has_text(texts: &Vec<String>, text: &String) -> (r: bool)
    ensures
        r == text_views(texts@).contains(text@),
{
    let mut i: usize = 0;
    while i < texts.len()
        invariant
            i <= texts.len(),
            forall|k: int| 0 <= k < i ==> (#[trigger] texts@[k])@ != text@,
        decreases texts.len() - i,
    {
        if texts[i] == *text {
            assert(text_views(texts@)[i as int] == text@);
            return true;
        }
        i = i + 1;
    }
    assert forall|k: int| 0 <= k < texts@.len() implies text_views(texts@)[k] != text@ by {
        assert(texts@[k]@ != text@);
    }
    false
}

/// The first of some texts that is not among others.
fn find_missing(texts: &Vec<String>, others: &Vec<String>) -> (r: Option<usize>)
    ensures
        match r {
            Some(i) => i < texts@.len() && first_missing(text_views(texts@), text_views(others@))
                == Some(texts@[i as int]@),
            None => first_missing(text_views(texts@), text_views(others@)) is None,
        },
{
    let ghost all = text_views(texts@);
    let mut i: usize = 0;
    assert(all.skip(0) =~= all);
    while i < texts.len()
        invariant
            i <= texts.len(),
            all == text_views(texts@),
            first_missing(all.skip(i as int), text_views(others@)) == first_missing(
                all,
                text_views(others@),
            ),
        decreases texts.len() - i,
    {
        assert(all.skip(i as int)[0] == texts@[i as int]@);
        assert(all.skip(i as int).drop_first() =~= all.skip(i + 1));
        if !has_text(others, &texts[i]) {
            return Some(i);
        }
        i = i + 1;
    }
    None
}

/// Starts to collect one session for each monitor. Saved tokens are reused, so that the portal
/// can restore a monitor without asking the user.
pub fn build_hyprland_sessions(displays: &Displays, saved: TokenMap) -> (r: Result<
    MonitorSessions,
    DBusError,
>)
    ensures
        match r {
            Ok(sessions) => {
                &&& displays.displays@.len() > 0
                &&& sessions@ == MonitorGrants::start(display_names(displays.displays@), saved@)
            },
            Err(e) => displays.displays@.len() == 0 && e.0@ == "No Wayland displays to capture"@,
        },
{
    let ds: &Vec<WaylandDisplayInfo> = &displays.displays;
    if ds.len() == 0 {
        return Err(DBusError("No Wayland displays to capture".to_owned()));
    }
    let mut monitors: Vec<String> = Vec::new();
    let mut i: usize = 0;
    while i < ds.len()
        invariant
            i <= ds.len(),
            text_views(monitors@) == display_names(ds@).take(i as int),
            monitors@.len() == i,
        decreases ds.len() - i,
    {
        let ghost before = monitors@;
        monitors.push(ds[i].name.clone());
        assert(text_views(monitors@) =~= text_views(before).push(ds@[i as int].name@));
        assert(display_names(ds@).take(i + 1) =~= display_names(ds@).take(i as int).push(
            ds@[i as int].name@,
        ));
        i = i + 1;
    }
    assert(display_names(ds@).take(ds@.len() as int) =~= display_names(ds@));
    let r: MonitorSessions = MonitorSessions {
        monitors,
        saved,
        sessions: Vec::new(),
        covered: Vec::new(),
        tried: Vec::new(),
        attempts: 0,
        requested: None,
        stopped: false,
    };
    assert(r@.covered =~= seq![] && r@.tried =~= seq![]);
    Ok(r)
}

impl MonitorSessions {
    /// The next request to make, if any. What drives the requests is which monitors are missing:
    /// the portal decides which monitor it hands back, so a grant of another one does not use up
    /// the turn of the monitor that was requested.
    pub fn next_request(&mut self) -> (r: Option<GrantRequest>)
        ensures
            final(self)@ == old(self)@.after_request(),
            match r {
                Some(request) => {
                    &&& old(self)@.target() == Some(request.monitor@)
                    &&& opt_text(request.token) == old(self)@.offered_token(request.monitor@)
                },
                None => old(self)@.target() is None,
            },
    {
        let max_attempts: u128 = self.monitors.len() as u128
            * MAX_GRANT_ATTEMPTS_PER_MONITOR as u128;
        if self.stopped || self.attempts >= max_attempts {
            return None;
        }
        match find_missing(&self.monitors, &self.covered) {
            Some(i) => {
                let ghost before = self@;
                let monitor: String = self.monitors[i].clone();
                let mut token: Option<String> = None;
                if !has_text(&self.tried, &monitor) {
                    token =
                    match self.saved.get(monitor.as_str()) {
                        Some(saved) => Some(saved.clone()),
                        None => None,
                    };
                    let ghost tried = self.tried@;
                    self.tried.push(monitor.clone());
                    assert(text_views(self.tried@) =~= text_views(tried).push(monitor@));
                }
                self.attempts = self.attempts + 1;
                self.requested = Some(monitor.clone());
                Some(GrantRequest { monitor, token })
            },
            None => None,
        }
    }

    /// Takes the answer to the request that was made. `None` stands for a request that failed.
    pub fn on_grant(&mut self, grant: Option<RdpSessionInfo>, displays: &Displays) -> (r:
        GrantOutcome)
        requires
            old(self)@.requested is Some,
        ensures
            final(self)@ == old(self)@.after_grant(
                grant,
                match grant {
                    Some(info) => shown_monitor(stream_views(info.streams@), displays.displays@),
                    None => None,
                },
            ),
            match grant {
                Some(info) if info.streams@.len() > 0 => if old(self)@.covered.contains(
                    old(self)@.granted(shown_monitor(stream_views(info.streams@), displays.displays@)),
                ) {
                    r == GrantOutcome::Duplicate(info)
                } else {
                    r is Kept
                },
                _ => r is Stopped,
            },
    {
        let requested: Option<String> = self.requested.take();
        let info: RdpSessionInfo = match grant {
            Some(info) => info,
            None => {
                self.stopped = true;
                return GrantOutcome::Stopped;
            },
        };
        if info.streams.len() == 0 {
            self.stopped = true;
            return GrantOutcome::Stopped;
        }
        let granted: String = match monitor_name_for_streams(&info.streams, displays) {
            Some(name) => name,
            None => match requested {
                Some(name) => name,
                None => String::new(),
            },
        };
        if has_text(&self.covered, &granted) {
            return GrantOutcome::Duplicate(info);
        }
        let ghost covered = self.covered@;
        let ghost name = granted@;
        self.covered.push(granted);
        assert(text_views(self.covered@) =~= text_views(covered).push(name));
        self.sessions.push(info);
        GrantOutcome::Kept
    }

    /// The monitors that no session shows.
    pub fn uncovered(&self) -> (r: Vec<String>)
        ensures
            text_views(r@) == self@.monitors.filter(|m: Seq<char>| !self@.covered.contains(m)),
    {
        let ghost keep = |m: Seq<char>| !self@.covered.contains(m);
        let mut out: Vec<String> = Vec::new();
        let mut i: usize = 0;
        reveal(Seq::filter);
        assert(text_views(out@) =~= self@.monitors.take(0).filter(keep));
        while i < self.monitors.len()
            invariant
                i <= self.monitors.len(),
                keep == (|m: Seq<char>| !self@.covered.contains(m)),
                text_views(out@) == self@.monitors.take(i as int).filter(keep),
            decreases self.monitors.len() - i,
        {
            let ghost before = out@;
            reveal(Seq::filter);
            assert(self@.monitors.take(i + 1).drop_last() =~= self@.monitors.take(i as int));
            assert(self@.monitors.take(i + 1).last() == self.monitors@[i as int]@);
            if !has_text(&self.covered, &self.monitors[i]) {
                out.push(self.monitors[i].clone());
                assert(text_views(out@) =~= text_views(before).push(self.monitors@[i as int]@));
            }
            i = i + 1;
        }
        assert(self@.monitors.take(self@.monitors.len() as int) =~= self@.monitors);
        out
    }

    /// The sessions, the first apart from the others.
    pub fn finish(self) -> (r: Result<(RdpSessionInfo, Vec<RdpSessionInfo>), DBusError>)
        ensures
            match r {
                Ok((primary, extras)) => {
                    &&& self@.sessions.len() > 0
                    &&& primary == self@.sessions[0]
                    &&& extras@ == self@.sessions.drop_first()
                },
                Err(e) => self@.sessions.len() == 0 && e.0@
                    == "Failed to obtain any Hyprland capture session"@,
            },
    {
        let mut sessions: Vec<RdpSessionInfo> = self.sessions;
        if sessions.len() == 0 {
            return Err(DBusError("Failed to obtain any Hyprland capture session".to_owned()));
        }
        let primary: RdpSessionInfo = sessions.remove(0);
        assert(sessions@ =~= self@.sessions.drop_first());
        Ok((primary, sessions))
    }
}

impl MonitorGrants {
    /// What holds at every point: each session shows another monitor, no monitor is noted twice,
    /// and the attempts are limited.
    pub open spec fn is_sound(self) -> bool {
        &&& self.sessions.len() == self.covered.len()
        &&& self.covered.no_duplicates()
        &&& self.tried.no_duplicates()
        &&& self.attempts <= self.monitors.len() * MAX_GRANT_ATTEMPTS_PER_MONITOR
        &&& forall|i: int|
            0 <= i < self.sessions.len() ==> (#[trigger] self.sessions[i]).streams@.len() > 0
    }

    /// One point follows another: a request is made, or a request is answered.
    pub open spec fn follows(self, next: Self) -> bool {
        ||| next == self.after_request()
        ||| exists|grant: Option<RdpSessionInfo>, shown: Option<Seq<char>>| #[trigger]
            self.after_grant(grant, shown) == next
    }

    /// Every monitor is covered.
    pub open spec fn all_covered(self) -> bool {
        forall|i: int|
            0 <= i < self.monitors.len() ==> self.covered.contains(#[trigger] self.monitors[i])
    }
}

/// Points that follow one another.
pub open spec fn is_course(points: Seq<MonitorGrants>) -> bool {
    forall|i: int| 0 <= i < points.len() - 1 ==> (#[trigger] points[i]).follows(points[i + 1])
}

proof fn lemma_first_missing(texts: Seq<Seq<char>>, others: Seq<Seq<char>>)
    ensures
        match first_missing(texts, others) {
            Some(t) => texts.contains(t) && !others.contains(t),
            None => forall|i: int| 0 <= i < texts.len() ==> others.contains(#[trigger] texts[i]),
        },
    decreases texts.len(),
{
    if texts.len() > 0 && others.contains(texts[0]) {
        lemma_first_missing(texts.drop_first(), others);
        match first_missing(texts.drop_first(), others) {
            Some(t) => {
                let k = choose|k: int|
                    0 <= k < texts.drop_first().len() && texts.drop_first()[k] == t;
                assert(texts[k + 1] == t);
            },
            None => {
                assert forall|i: int| 0 <= i < texts.len() implies others.contains(
                    #[trigger] texts[i],
                ) by {
                    if i > 0 {
                        assert(texts.drop_first()[i - 1] == texts[i]);
                    }
                }
            },
        }
    } else if texts.len() > 0 {
        assert(texts[0] == first_missing(texts, others)->0);
    }
}

/// The invariant holds at the start.
pub proof fn law_invariant_at_start(
    monitors: Seq<Seq<char>>,
    saved: Map<Seq<char>, Seq<char>>,
)
    ensures
        MonitorGrants::start(monitors, saved).is_sound(),
{
}

/// Every step keeps the invariant: no monitor is ever held twice, and there are never more
/// requests than two for each monitor.
pub proof fn law_invariant_is_kept(point: MonitorGrants, next: MonitorGrants)
    requires
        point.is_sound(),
        point.follows(next),
    ensures
        next.is_sound(),
        next.monitors == point.monitors,
        next.saved == point.saved,
{
}

/// Only a monitor that is not covered is requested. Where no request is made, a request failed,
/// or the attempts are used up, or every monitor is covered.
pub proof fn law_requests_are_for_missing_monitors(point: MonitorGrants)
    ensures
        match point.target() {
            Some(monitor) => {
                &&& point.monitors.contains(monitor)
                &&& !point.covered.contains(monitor)
                &&& point.after_request().attempts == point.attempts + 1
            },
            None => {
                ||| point.stopped
                ||| point.attempts >= point.monitors.len() * MAX_GRANT_ATTEMPTS_PER_MONITOR
                ||| point.all_covered()
            },
        },
{
    lemma_first_missing(point.monitors, point.covered);
}

proof fn lemma_tried_grows(points: Seq<MonitorGrants>, i: int, j: int, monitor: Seq<char>)
    requires
        is_course(points),
        0 <= i <= j < points.len(),
        points[i].tried.contains(monitor),
    ensures
        points[j].tried.contains(monitor),
    decreases j - i,
{
    if i < j {
        assert(points[i].follows(points[i + 1]));
        if points[i].target() is Some && !points[i].tried.contains(points[i].target()->0) {
            let k = choose|k: int|
                0 <= k < points[i].tried.len() && points[i].tried[k] == monitor;
            assert(points[i].tried.push(points[i].target()->0)[k] == monitor);
        }
        lemma_tried_grows(points, i + 1, j, monitor);
    }
}

/// A saved token is offered at most once: a later request for the same monitor carries none, so
/// that the user is asked.
pub proof fn law_token_is_offered_once(
    points: Seq<MonitorGrants>,
    i: int,
    j: int,
    monitor: Seq<char>,
)
    requires
        is_course(points),
        0 <= i < j < points.len(),
        points[i].target() == Some(monitor),
        points[i + 1] == points[i].after_request(),
    ensures
        points[j].offered_token(monitor) is None,
{
    let tried = points[i + 1].tried;
    if !points[i].tried.contains(monitor) {
        assert(tried[tried.len() - 1] == monitor);
    }
    assert(tried.contains(monitor));
    lemma_tried_grows(points, i + 1, j, monitor);
}

proof fn lemma_still_missing(texts: Seq<Seq<char>>, others: Seq<Seq<char>>, more: Seq<char>)
    requires
        first_missing(texts, others) is Some,
        first_missing(texts, others) != Some(more),
    ensures
        first_missing(texts, others.push(more)) == first_missing(texts, others),
    decreases texts.len(),
{
    if texts.len() > 0 {
        let t = texts[0];
        if others.contains(t) {
            let k = choose|k: int| 0 <= k < others.len() && others[k] == t;
            assert(others.push(more)[k] == t);
            lemma_still_missing(texts.drop_first(), others, more);
        } else {
            assert(!others.push(more).contains(t));
        }
    }
}

/// A grant of another monitor does not use up the turn of the one that was requested: as long as
/// attempts are left, that one is requested again.
pub proof fn law_other_grant_keeps_the_turn(
    point: MonitorGrants,
    info: RdpSessionInfo,
    shown: Option<Seq<char>>,
)
    requires
        point.target() is Some,
        info.streams@.len() > 0,
        point.after_request().granted(shown) != point.target()->0,
        point.attempts + 1 < point.monitors.len() * MAX_GRANT_ATTEMPTS_PER_MONITOR,
    ensures
        point.after_request().after_grant(Some(info), shown).target() == point.target(),
{
    let asked = point.after_request();
    if !asked.covered.contains(asked.granted(shown)) {
        lemma_still_missing(point.monitors, point.covered, asked.granted(shown));
    }
}

/// A grant whose monitor cannot be told counts for the monitor that was requested.
pub proof fn law_untold_grant_covers_the_requested(point: MonitorGrants, info: RdpSessionInfo)
    requires
        point.target() is Some,
        info.streams@.len() > 0,
    ensures
        point.after_request().after_grant(Some(info), None).covered == point.covered.push(
            point.target()->0,
        ),
{
    lemma_first_missing(point.monitors, point.covered);
}

/// The point after the portal granted, one after the other, just what was requested.
pub open spec fn after_faithful_grants(
    point: MonitorGrants,
    grants: Seq<RdpSessionInfo>,
) -> MonitorGrants
    decreases grants.len(),
{
    if grants.len() == 0 {
        point
    } else {
        let before = after_faithful_grants(point, grants.drop_last());
        match before.target() {
            Some(monitor) => before.after_request().after_grant(Some(grants.last()), Some(monitor)),
            None => before,
        }
    }
}

proof fn lemma_faithful_grants(
    monitors: Seq<Seq<char>>,
    saved: Map<Seq<char>, Seq<char>>,
    grants: Seq<RdpSessionInfo>,
)
    requires
        forall|i: int| 0 <= i < grants.len() ==> (#[trigger] grants[i]).streams@.len() > 0,
    ensures
        ({
            let after = after_faithful_grants(MonitorGrants::start(monitors, saved), grants);
            &&& after.is_sound()
            &&& after.monitors == monitors
            &&& !after.stopped
            &&& after.attempts == after.covered.len()
            &&& forall|i: int|
                0 <= i < after.covered.len() ==> monitors.contains(#[trigger] after.covered[i])
            &&& after.covered.len() <= grants.len()
            &&& after.all_covered() || after.covered.len() == grants.len()
        }),
    decreases grants.len(),
{
    if grants.len() > 0 {
        assert forall|i: int| 0 <= i < grants.drop_last().len() implies (
        #[trigger] grants.drop_last()[i]).streams@.len() > 0 by {
            assert(grants.drop_last()[i] == grants[i]);
        }
        lemma_faithful_grants(monitors, saved, grants.drop_last());
        let before = after_faithful_grants(
            MonitorGrants::start(monitors, saved),
            grants.drop_last(),
        );
        lemma_covers(before);
        lemma_first_missing(before.monitors, before.covered);
        match before.target() {
            Some(monitor) => {
                let asked = before.after_request();
                let after = asked.after_grant(Some(grants.last()), Some(monitor));
                assert(before.follows(asked) && asked.follows(after));
                law_invariant_is_kept(before, asked);
                law_invariant_is_kept(asked, after);
            },
            None => {},
        }
    }
}

/// So many monitors are covered, each once and each one of the monitors, that none is left.
proof fn lemma_covers(point: MonitorGrants)
    requires
        point.covered.no_duplicates(),
        forall|i: int|
            0 <= i < point.covered.len() ==> point.monitors.contains(#[trigger] point.covered[i]),
    ensures
        point.covered.len() <= point.monitors.len(),
        point.covered.len() == point.monitors.len() ==> point.all_covered(),
{
    let (x, y) = (point.covered.to_set(), point.monitors.to_set());
    vstd::seq_lib::seq_to_set_is_finite(point.covered);
    vstd::seq_lib::seq_to_set_is_finite(point.monitors);
    point.covered.unique_seq_to_set();
    point.monitors.lemma_cardinality_of_set();
    assert(x.subset_of(y));
    vstd::set_lib::lemma_len_subset(x, y);
    if point.covered.len() == point.monitors.len() {
        vstd::set_lib::lemma_subset_equality(x, y);
        assert forall|i: int| 0 <= i < point.monitors.len() implies point.covered.contains(
            #[trigger] point.monitors[i],
        ) by {
            assert(y.contains(point.monitors[i]));
        }
    }
}

/// Where the portal grants what is requested, every monitor gets a session, after no more grants
/// than there are monitors.
pub proof fn law_every_monitor_is_covered(
    monitors: Seq<Seq<char>>,
    saved: Map<Seq<char>, Seq<char>>,
    grants: Seq<RdpSessionInfo>,
)
    requires
        forall|i: int| 0 <= i < grants.len() ==> (#[trigger] grants[i]).streams@.len() > 0,
        grants.len() >= monitors.len(),
    ensures
        after_faithful_grants(MonitorGrants::start(monitors, saved), grants).all_covered(),
{
    lemma_faithful_grants(monitors, saved, grants);
    lemma_covers(after_faithful_grants(MonitorGrants::start(monitors, saved), grants));
}

/// At every point, a request for a monitor that was not requested before carries the token that
/// is saved for that monitor, whatever other monitors were requested or covered before. A request
/// carries no token where none is saved for the monitor, or where it was requested before.
pub proof fn law_first_request_carries_the_saved_token(point: MonitorGrants, monitor: Seq<char>)
    ensures
        !point.tried.contains(monitor) && point.saved.contains_key(monitor) ==> point.offered_token(
            monitor,
        ) == Some(point.saved[monitor]),
        !point.saved.contains_key(monitor) ==> point.offered_token(monitor) is None,
        point.tried.contains(monitor) ==> point.offered_token(monitor) is None,
{
}

proof fn lemma_first_missing_index(texts: Seq<Seq<char>>, others: Seq<Seq<char>>, i: int)
    requires
        0 <= i < texts.len(),
        !others.contains(texts[i]),
        forall|k: int| 0 <= k < i ==> others.contains(#[trigger] texts[k]),
    ensures
        first_missing(texts, others) == Some(texts[i]),
    decreases texts.len(),
{
    if i > 0 {
        assert(others.contains(texts[0]));
        let rest = texts.drop_first();
        assert(rest[i - 1] == texts[i]);
        assert forall|k: int| 0 <= k < i - 1 implies others.contains(#[trigger] rest[k]) by {
            assert(rest[k] == texts[k + 1]);
        }
        lemma_first_missing_index(rest, others, i - 1);
    }
}

/// The monitor that is requested is the first one without a session, as long as no request failed
/// and fewer than two requests for each monitor were made; the request is counted, and noted as
/// made for that monitor.
pub proof fn law_first_missing_monitor_is_requested(point: MonitorGrants, i: int)
    requires
        !point.stopped,
        point.attempts < 2 * point.monitors.len(),
        0 <= i < point.monitors.len(),
        !point.covered.contains(point.monitors[i]),
        forall|k: int| 0 <= k < i ==> point.covered.contains(#[trigger] point.monitors[k]),
    ensures
        point.target() == Some(point.monitors[i]),
        ({
            let asked = point.after_request();
            &&& asked.requested == Some(point.monitors[i])
            &&& asked.attempts == point.attempts + 1
            &&& asked.tried.contains(point.monitors[i])
            &&& forall|m: Seq<char>| #[trigger]
                asked.tried.contains(m) <==> point.tried.contains(m) || m == point.monitors[i]
            &&& asked.monitors == point.monitors
            &&& asked.saved == point.saved
            &&& asked.sessions == point.sessions
            &&& asked.covered == point.covered
            &&& !asked.stopped
        }),
{
    lemma_first_missing_index(point.monitors, point.covered, i);
    let m0 = point.monitors[i];
    let asked = point.after_request();
    if !point.tried.contains(m0) {
        assert(asked.tried == point.tried.push(m0));
        assert(asked.tried[point.tried.len() as int] == m0);
        assert forall|m: Seq<char>| point.tried.contains(m) implies #[trigger] asked.tried.contains(
            m,
        ) by {
            let k = choose|k: int| 0 <= k < point.tried.len() && point.tried[k] == m;
            assert(asked.tried[k] == m);
        }
    }
}

/// No request is made once a request failed, once there were two for each monitor, or once each
/// monitor has a session; and then nothing changes.
pub proof fn law_requests_end(point: MonitorGrants)
    ensures
        point.stopped || point.attempts >= 2 * point.monitors.len() || (forall|i: int|
            0 <= i < point.monitors.len() ==> point.covered.contains(#[trigger] point.monitors[i]))
            ==> point.target() is None && point.after_request() == point,
{
    lemma_first_missing(point.monitors, point.covered);
}

/// A grant with streams is kept, once, for the monitor that its streams show, or else for the one
/// that was requested; a second grant for that monitor changes nothing but that the request is
/// answered. A request that failed, or gave no streams, ends the requests and loses no session.
pub proof fn law_grants_are_kept_by_monitor(
    point: MonitorGrants,
    grant: Option<RdpSessionInfo>,
    shown: Option<Seq<char>>,
)
    requires
        point.requested is Some,
    ensures
        ({
            let next = point.after_grant(grant, shown);
            let name = if shown is Some {
                shown->0
            } else {
                point.requested->0
            };
            &&& next.requested is None
            &&& next.monitors == point.monitors
            &&& next.saved == point.saved
            &&& next.tried == point.tried
            &&& next.attempts == point.attempts
            &&& grant is None || grant->0.streams@.len() == 0 ==> next.stopped && next.sessions
                == point.sessions && next.covered == point.covered
            &&& grant is Some && grant->0.streams@.len() > 0 ==> next.stopped == point.stopped
                && next.covered.contains(name)
            &&& grant is Some && grant->0.streams@.len() > 0 && !point.covered.contains(name)
                ==> next.sessions == point.sessions.push(grant->0) && next.covered
                == point.covered.push(name)
            &&& grant is Some && grant->0.streams@.len() > 0 && point.covered.contains(name)
                ==> next.sessions == point.sessions && next.covered == point.covered
        }),
{
    let name = if shown is Some {
        shown->0
    } else {
        point.requested->0
    };
    let pushed = point.covered.push(name);
    assert(pushed[point.covered.len() as int] == name);
}

/// Where the portal grants what is requested, the monitors are requested one after the other,
/// each with the token that is saved for it, if there is one; so all monitors that were granted
/// before are restored, each without asking the user.
pub proof fn law_all_saved_tokens_are_offered(
    monitors: Seq<Seq<char>>,
    saved: Map<Seq<char>, Seq<char>>,
    grants: Seq<RdpSessionInfo>,
)
    requires
        monitors.no_duplicates(),
        grants.len() <= monitors.len(),
        forall|i: int| 0 <= i < grants.len() ==> (#[trigger] grants[i]).streams@.len() > 0,
    ensures
        ({
            let point = after_faithful_grants(MonitorGrants::start(monitors, saved), grants);
            let k = grants.len() as int;
            &&& point.sessions == grants
            &&& point.covered == monitors.take(k)
            &&& k < monitors.len() ==> point.target() == Some(monitors[k])
            &&& k < monitors.len() && saved.contains_key(monitors[k]) ==> point.offered_token(
                monitors[k],
            ) == Some(saved[monitors[k]])
            &&& k < monitors.len() && !saved.contains_key(monitors[k]) ==> point.offered_token(
                monitors[k],
            ) is None
        }),
{
    lemma_faithful_course(monitors, saved, grants);
}

proof fn lemma_faithful_course(
    monitors: Seq<Seq<char>>,
    saved: Map<Seq<char>, Seq<char>>,
    grants: Seq<RdpSessionInfo>,
)
    requires
        monitors.no_duplicates(),
        grants.len() <= monitors.len(),
        forall|i: int| 0 <= i < grants.len() ==> (#[trigger] grants[i]).streams@.len() > 0,
    ensures
        ({
            let point = after_faithful_grants(MonitorGrants::start(monitors, saved), grants);
            let k = grants.len() as int;
            &&& point.monitors == monitors
            &&& point.saved == saved
            &&& point.sessions == grants
            &&& point.covered == monitors.take(k)
            &&& point.tried == monitors.take(k)
            &&& point.attempts == k
            &&& !point.stopped
            &&& k < monitors.len() ==> !monitors.take(k).contains(monitors[k])
            &&& k < monitors.len() ==> point.target() == Some(monitors[k])
        }),
    decreases grants.len(),
{
    let point = after_faithful_grants(MonitorGrants::start(monitors, saved), grants);
    let k = grants.len() as int;
    if k > 0 {
        let fewer = grants.drop_last();
        assert forall|i: int| 0 <= i < fewer.len() implies (#[trigger] fewer[i]).streams@.len()
            > 0 by {
            assert(fewer[i] == grants[i]);
        }
        lemma_faithful_course(monitors, saved, fewer);
        assert(grants =~= fewer.push(grants.last()));
        assert(monitors.take(k) =~= monitors.take(k - 1).push(monitors[k - 1]));
    } else {
        assert(monitors.take(0) =~= seq![]);
        assert(grants =~= seq![]);
    }
    if k < monitors.len() {
        assert(!monitors.take(k).contains(monitors[k])) by {
            if monitors.take(k).contains(monitors[k]) {
                let n = choose|n: int| 0 <= n < k && monitors.take(k)[n] == monitors[k];
                assert(monitors[n] == monitors[k]);
            }
        }
        assert forall|n: int| 0 <= n < k implies point.covered.contains(#[trigger] monitors[n]) by {
            assert(monitors.take(k)[n] == monitors[n]);
        }
        lemma_first_missing_index(monitors, point.covered, k);
    }
}

/// At the start each display of the layout is a monitor, in their order and by its name; the saved
/// tokens are at hand, and nothing was requested or granted.
pub proof fn law_collection_starts_with_all_displays(
    ds: Seq<WaylandDisplayInfo>,
    saved: Map<Seq<char>, Seq<char>>,
)
    ensures
        ({
            let start = MonitorGrants::start(display_names(ds), saved);
            &&& start.monitors.len() == ds.len()
            &&& forall|i: int| 0 <= i < ds.len() ==> #[trigger] start.monitors[i] == ds[i].name@
            &&& start.saved == saved
            &&& start.sessions.len() == 0 && start.covered.len() == 0 && start.tried.len() == 0
            &&& start.attempts == 0 && start.requested is None && !start.stopped
        }),
{
}

} // verus!
