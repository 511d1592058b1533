//! The conversation with the desktop portal that ends in a grant of streams.
use crate::display::{Displays, WaylandDisplayInfo};
use crate::errors::DBusError;
use crate::monitors::MonitorGrants;
use crate::outside::{before_nul, is_object_path, is_path_char, object_path, MAX_PATH_CHARS};
use crate::session::{new_rdp_session, RdpSessionInfo};
use crate::stream::{
    copy_text, law_streams_are_stamped_by_name, monitor_name_for_streams, opt_text, shown_monitor,
    stamp_hyprland_stream_positions, stamped_streams, stream_list, stream_views, streams_among,
    streams_from_response, tells_position, PortalResults, PwStreamInfo, StreamView,
};
use crate::text::chars_of;
use crate::tokens::{
    clear_restore_token_state, cleared_options, law_saved_token_is_found, save_restore_token_for,
    should_use_restore_token, stored_tokens, token_saved, LocalOptions, OptionsView,
};
use vstd::prelude::*;

verus! {

/// How often the answer of the portal is awaited, a tenth of a second each time.
pub const MAX_WAIT_ROUNDS: u32 = 1800;

/// The version of the ScreenCast portal from which on it knows restore tokens.
pub const RESTORE_TOKEN_VERSION: u32 = 4;

/// An argument of a call.
#[derive(Debug)]
pub enum PortalArg {
    Text(String),
    Number(u32),
    Flag(bool),
}

/// An argument as a mathematical value.
pub ghost enum ArgView {
    Text(Seq<char>),
    Number(u32),
    Flag(bool),
}

impl View for PortalArg {
    type V = ArgView;

    open spec fn view(&self) -> ArgView {
        match *self {
            PortalArg::Text(t) => ArgView::Text(t@),
            PortalArg::Number(n) => ArgView::Number(n),
            PortalArg::Flag(b) => ArgView::Flag(b),
        }
    }
}

/// The named arguments of a call. Of two arguments with one name the later one counts.
#[derive(Debug)]
pub struct PortalArgs {
    pub entries: Vec<(String, PortalArg)>,
}

/// Named arguments as a map.
pub open spec fn args_map(entries: Seq<(String, PortalArg)>) -> Map<Seq<char>, ArgView>
    decreases entries.len(),
{
    if entries.len() == 0 {
        Map::empty()
    } else {
        args_map(entries.drop_last()).insert(entries.last().0@, entries.last().1@)
    }
}

impl View for PortalArgs {
    type V = Map<Seq<char>, ArgView>;

    open spec fn view(&self) -> Map<Seq<char>, ArgView> {
        args_map(self.entries@)
    }
}

impl PortalArgs {
    fn new() -> (r: Self)
        ensures
            r@ == Map::<Seq<char>, ArgView>::empty(),
    {
        PortalArgs { entries: Vec::new() }
    }

    fn insert(&mut self, name: &str, arg: PortalArg)
        ensures
            final(self)@ == old(self)@.insert(name@, arg@),
    {
        let ghost before = self.entries@;
        self.entries.push((name.to_owned(), arg));
        assert(self.entries@.drop_last() =~= before);
    }

    fn insert_text(&mut self, name: &str, text: &str)
        ensures
            final(self)@ == old(self)@.insert(name@, ArgView::Text(text@)),
    {
        self.insert(name, PortalArg::Text(text.to_owned()));
    }
}

/// The interface of the portal that a call goes to.
#[derive(Debug, PartialEq, Eq, Structural, Clone, Copy)]
pub enum Portal {
    ScreenCast,
    RemoteDesktop,
}

/// A call.
#[derive(Debug, PartialEq, Eq, Structural, Clone, Copy)]
pub enum Method {
    CreateSession,
    SelectDevices,
    SelectSources,
    Start,
}

/// A call to make. The answer comes as a signal at `response_path`. Fast compositors answer at
/// once, so one listens there before the call is made: see [`PortalAction`].
#[derive(Debug)]
pub struct PortalRequest {
    pub portal: Portal,
    pub method: Method,
    pub response_path: String,
    pub session: Option<String>,
    pub args: PortalArgs,
}

/// A call as a mathematical value.
pub ghost struct RequestView {
    pub portal: Portal,
    pub method: Method,
    pub response_path: Seq<char>,
    pub session: Option<Seq<char>>,
    pub args: Map<Seq<char>, ArgView>,
}

impl View for PortalRequest {
    type V = RequestView;

    open spec fn view(&self) -> RequestView {
        RequestView {
            portal: self.portal,
            method: self.method,
            response_path: self.response_path@,
            session: opt_text(self.session),
            args: self.args@,
        }
    }
}

/// What is to be done on the bus.
#[derive(Debug)]
pub enum PortalAction {
    /// Listen, at this path, for the answer to a call of this method.
    Listen(Method, String),
    /// Make this call.
    Call(PortalRequest),
}

/// An action as a mathematical value.
pub ghost enum ActionView {
    Listen(Method, Seq<char>),
    Call(RequestView),
}

impl View for PortalAction {
    type V = ActionView;

    open spec fn view(&self) -> ActionView {
        match *self {
            PortalAction::Listen(method, path) => ActionView::Listen(method, path@),
            PortalAction::Call(request) => ActionView::Call(request@),
        }
    }
}

/// How a call is made: one listens for its answer first, then makes it, once.
pub open spec fn exchange(request: RequestView) -> Seq<ActionView> {
    seq![
        ActionView::Listen(request.method, request.response_path),
        ActionView::Call(request),
    ]
}

/// Actions as mathematical values.
pub open spec fn action_views(actions: Seq<PortalAction>) -> Seq<ActionView> {
    actions.map_values(|a: PortalAction| a@)
}

/// The outcome of a step: the next actions, in their order, or a failure in words.
pub open spec fn step_view(r: Result<Vec<PortalAction>, DBusError>) -> Result<
    Seq<ActionView>,
    Seq<char>,
> {
    match r {
        Ok(actions) => Ok(action_views(actions@)),
        Err(e) => Err(e.0@),
    }
}

/// The state of the conversation.
///
/// `unique_name` is the name that the bus gave the connection. `has_fd` tells that the file
/// descriptor of the PipeWire remote was received.
#[derive(Debug)]
pub struct Negotiation {
    pub unique_name: String,
    pub session: Option<String>,
    pub streams: Vec<PwStreamInfo>,
    pub has_fd: bool,
    pub failure: bool,
    pub is_support_restore_token: bool,
    pub capture_cursor: bool,
    pub restore_token: Option<String>,
}

/// The conversation as a mathematical value.
pub ghost struct NegotiationView {
    pub unique_name: Seq<char>,
    pub session: Option<Seq<char>>,
    pub streams: Seq<StreamView>,
    pub has_fd: bool,
    pub failure: bool,
    pub is_support_restore_token: bool,
    pub capture_cursor: bool,
    pub restore_token: Option<Seq<char>>,
}

impl View for Negotiation {
    type V = NegotiationView;

    open spec fn view(&self) -> NegotiationView {
        NegotiationView {
            unique_name: self.unique_name@,
            session: opt_text(self.session),
            streams: stream_views(self.streams@),
            has_fd: self.has_fd,
            failure: self.failure,
            is_support_restore_token: self.is_support_restore_token,
            capture_cursor: self.capture_cursor,
            restore_token: opt_text(self.restore_token),
        }
    }
}

/// A bus name of a length that libdbus can count.
pub open spec fn is_short_name(unique_name: Seq<char>) -> bool {
    unique_name.len() + 100 <= MAX_PATH_CHARS
}

/// A text without the colons at its start.
pub open spec fn without_colons(s: Seq<char>) -> Seq<char>
    decreases s.len(),
{
    if s.len() > 0 && s[0] == ':' {
        without_colons(s.drop_first())
    } else {
        s
    }
}

/// A text with `_` in place of each `.`.
pub open spec fn without_dots(s: Seq<char>) -> Seq<char> {
    s.map_values(
        |c: char|
            if c == '.' {
                '_'
            } else {
                c
            },
    )
}

/// The form in which the name of a connection stands in the path of its requests.
pub open spec fn sender_text(unique_name: Seq<char>) -> Seq<char> {
    without_dots(without_colons(unique_name))
}

/// The path at which a request is answered.
pub open spec fn request_path(unique_name: Seq<char>, handle_token: Seq<char>) -> Seq<char> {
    "/org/freedesktop/portal/desktop/request/"@ + sender_text(unique_name) + "/"@ + handle_token
}

/// The path of a request, or a failure where it is no object path.
pub open spec fn checked_path(unique_name: Seq<char>, handle_token: Seq<char>) -> Result<
    Seq<char>,
    Seq<char>,
> {
    let path = request_path(unique_name, handle_token);
    if is_object_path(before_nul(path)) {
        Ok(path)
    } else {
        Err("Failed to construct portal request path"@)
    }
}

proof fn lemma_without_colons_len(s: Seq<char>)
    ensures
        without_colons(s).len() <= s.len(),
    decreases s.len(),
{
    if s.len() > 0 && s[0] == ':' {
        lemma_without_colons_len(s.drop_first());
    }
}

/// The form in which the name of a connection stands in the path of its requests: without the
/// colon at its start, and with `_` for `.`.
pub fn get_sender_normalized(unique_name: &str) -> (r: String)
    ensures
        r@ == sender_text(unique_name@),
{
    let chars: Vec<char> = chars_of(unique_name);
    let ghost s = unique_name@;
    let mut start: usize = 0;
    assert(s.skip(0) =~= s);
    while start < chars.len() && chars[start] == ':'
        invariant
            start <= chars.len(),
            chars@ == s,
            without_colons(s.skip(start as int)) == without_colons(s),
        decreases chars.len() - start,
    {
        assert(s.skip(start as int).drop_first() =~= s.skip(start + 1));
        start = start + 1;
    }
    let ghost rest = s.skip(start as int);
    assert(without_colons(s) == rest);
    let mut out: String = String::new();
    let mut i: usize = start;
    while i < chars.len()
        invariant
            start <= i <= chars.len(),
            chars@ == s,
            s == unique_name@,
            rest == s.skip(start as int),
            out@ == without_dots(rest.take(i - start)),
        decreases chars.len() - i,
    {
        let ghost before = out@;
        assert(rest.take(i - start + 1) =~= rest.take(i - start).push(s[i as int]));
        if chars[i] == '.' {
            proof {
                reveal_strlit("_");
            }
            out.append("_");
            assert(out@ =~= before.push('_'));
        } else {
            out.append(unique_name.substring_char(i, i + 1));
            assert(out@ =~= before.push(s[i as int]));
        }
        assert(without_dots(rest.take(i - start + 1)) =~= out@);
        i = i + 1;
    }
    assert(rest.take(rest.len() as int) =~= rest);
    out
}

/// The path at which a request with a token is answered.
pub fn get_request_path(unique_name: &str, handle_token: &str) -> (r: Result<String, DBusError>)
    requires
        unique_name@.len() + handle_token@.len() + 50 <= MAX_PATH_CHARS,
    ensures
        match r {
            Ok(path) => checked_path(unique_name@, handle_token@) == Ok::<Seq<char>, Seq<char>>(
                path@,
            ),
            Err(e) => checked_path(unique_name@, handle_token@) == Err::<Seq<char>, Seq<char>>(
                e.0@,
            ),
        },
{
    proof {
        lemma_without_colons_len(unique_name@);
        reveal_strlit("/org/freedesktop/portal/desktop/request/");
        reveal_strlit("/");
    }
    let mut path: String = "/org/freedesktop/portal/desktop/request/".to_owned();
    path.append(get_sender_normalized(unique_name).as_str());
    path.append("/");
    path.append(handle_token);
    match object_path(path) {
        Some(path) => Ok(path),
        None => Err(DBusError("Failed to construct portal request path".to_owned())),
    }
}

/// The actions of a call, or the failure to tell where it would be answered.
pub open spec fn planned_call(
    unique_name: Seq<char>,
    handle_token: Seq<char>,
    portal: Portal,
    method: Method,
    session: Option<Seq<char>>,
    args: Map<Seq<char>, ArgView>,
) -> Result<Seq<ActionView>, Seq<char>> {
    match checked_path(unique_name, handle_token) {
        Ok(response_path) => Ok(
            exchange(RequestView { portal, method, response_path, session, args }),
        ),
        Err(e) => Err(e),
    }
}

fn plan_call(
    unique_name: &str,
    handle_token: &str,
    portal: Portal,
    method: Method,
    session: Option<String>,
    args: PortalArgs,
) -> (r: Result<Vec<PortalAction>, DBusError>)
    requires
        unique_name@.len() + handle_token@.len() + 50 <= MAX_PATH_CHARS,
    ensures
        step_view(r) == planned_call(
            unique_name@,
            handle_token@,
            portal,
            method,
            opt_text(session),
            args@,
        ),
{
    match get_request_path(unique_name, handle_token) {
        Ok(response_path) => {
            let mut actions: Vec<PortalAction> = Vec::new();
            actions.push(PortalAction::Listen(method, response_path.clone()));
            let request: PortalRequest = PortalRequest {
                portal,
                method,
                response_path,
                session,
                args,
            };
            let ghost called = request@;
            actions.push(PortalAction::Call(request));
            assert(action_views(actions@) =~= exchange(called));
            Ok(actions)
        },
        Err(e) => Err(e),
    }
}

/// The portal that sessions come from: the one that can restore them while the server runs, else
/// the one that also takes input.
pub open spec fn session_portal(server_running: bool) -> Portal {
    if server_running {
        Portal::ScreenCast
    } else {
        Portal::RemoteDesktop
    }
}

fn portal_for(server_running: bool) -> (r: Portal)
    ensures
        r == session_portal(server_running),
{
    if server_running {
        Portal::ScreenCast
    } else {
        Portal::RemoteDesktop
    }
}

/// Whether the portal knows restore tokens, by the version of its ScreenCast interface.
pub fn supports_restore_token(version: Option<u32>) -> (r: bool)
    ensures
        r == (version matches Some(v) && v >= RESTORE_TOKEN_VERSION),
{
    match version {
        Some(v) => v >= RESTORE_TOKEN_VERSION,
        None => false,
    }
}

/// Whether the portal can draw the pointer into the stream, by the pointer modes that it offers.
pub fn supports_embedded_cursor(modes: Option<u32>) -> (r: bool)
    ensures
        r == (modes matches Some(m) && m & 2 != 0),
{
    match modes {
        Some(m) => m & 2 != 0,
        None => false,
    }
}

/// The conversation at its start.
pub open spec fn opened(
    unique_name: Seq<char>,
    is_support_restore_token: bool,
    capture_cursor: bool,
    restore_token: Option<Seq<char>>,
) -> NegotiationView {
    NegotiationView {
        unique_name,
        session: None,
        streams: seq![],
        has_fd: false,
        failure: false,
        is_support_restore_token,
        capture_cursor,
        restore_token,
    }
}

/// The first call: a session is created.
pub open spec fn create_session_call(
    unique_name: Seq<char>,
    server_running: bool,
) -> Result<Seq<ActionView>, Seq<char>> {
    planned_call(
        unique_name,
        "u1"@,
        session_portal(server_running),
        Method::CreateSession,
        None,
        Map::empty().insert("session_handle_token"@, ArgView::Text("u1"@)).insert(
            "handle_token"@,
            ArgView::Text("u1"@),
        ),
    )
}

/// Begins the conversation. `version` is that of the ScreenCast portal, if it could be asked.
/// `restore_token` is the token of a grant that the portal shall repeat. Tokens are forgotten
/// where the portal does not know them.
pub fn request_remote_desktop(
    unique_name: String,
    version: Option<u32>,
    capture_cursor: bool,
    restore_token: Option<String>,
    server_running: bool,
    options: &mut LocalOptions,
) -> (r: Result<(Negotiation, Vec<PortalAction>), DBusError>)
    requires
        is_short_name(unique_name@),
    ensures
        ({
            let known = version matches Some(v) && v >= RESTORE_TOKEN_VERSION;
            &&& final(options)@ == (if server_running && !known {
                cleared_options()
            } else {
                old(options)@
            })
            &&& match r {
                Ok((negotiation, actions)) => {
                    &&& negotiation@ == opened(
                        unique_name@,
                        known,
                        capture_cursor,
                        opt_text(restore_token),
                    )
                    &&& create_session_call(unique_name@, server_running) == Ok::<
                        Seq<ActionView>,
                        Seq<char>,
                    >(action_views(actions@))
                },
                Err(e) => create_session_call(unique_name@, server_running) == Err::<
                    Seq<ActionView>,
                    Seq<char>,
                >(e.0@),
            }
        }),
{
    let is_support_restore_token: bool = supports_restore_token(version);
    if server_running && !should_use_restore_token(is_support_restore_token) {
        clear_restore_token_state(options);
    }
    let mut args: PortalArgs = PortalArgs::new();
    args.insert_text("session_handle_token", "u1");
    args.insert_text("handle_token", "u1");
    proof {
        reveal_strlit("u1");
    }
    match plan_call(
        unique_name.as_str(),
        "u1",
        portal_for(server_running),
        Method::CreateSession,
        None,
        args,
    ) {
        Ok(actions) => {
            let negotiation: Negotiation = Negotiation {
                unique_name,
                session: None,
                streams: Vec::new(),
                has_fd: false,
                failure: false,
                is_support_restore_token,
                capture_cursor,
                restore_token,
            };
            assert(negotiation@.streams =~= seq![]);
            Ok((negotiation, actions))
        },
        Err(e) => Err(e),
    }
}

/// The code of a response: 0 is success, 1 that the user refused, any other a failure.
#[derive(Debug, PartialEq, Eq, Structural, Clone, Copy)]
pub enum Response {
    Proceed,
    Cancelled,
    Unknown(u32),
}

/// The conversation after a response with a code.
pub open spec fn after_response(negotiation: NegotiationView, code: u32) -> NegotiationView {
    NegotiationView { failure: negotiation.failure || code != 0, ..negotiation }
}

/// The conversation is over: the remote is open, or a step failed.
pub open spec fn settled(negotiation: NegotiationView) -> bool {
    negotiation.has_fd || negotiation.failure
}

/// The conversation led to a session: the remote is open, the session is known, and at least one
/// stream was granted.
pub open spec fn gives_session(negotiation: NegotiationView) -> bool {
    negotiation.has_fd && negotiation.session is Some && negotiation.streams.len() > 0
}

/// Takes the code of a response. Whatever is no success ends the conversation.
pub fn handle_response(negotiation: &mut Negotiation, code: u32) -> (r: Response)
    ensures
        r == (if code == 0 {
            Response::Proceed
        } else if code == 1 {
            Response::Cancelled
        } else {
            Response::Unknown(code)
        }),
        final(negotiation)@ == after_response(old(negotiation)@, code),
{
    if code == 0 {
        return Response::Proceed;
    }
    negotiation.failure = true;
    if code == 1 {
        Response::Cancelled
    } else {
        Response::Unknown(code)
    }
}

/// Ends the conversation because a step failed.
pub fn note_failure(negotiation: &mut Negotiation)
    ensures
        *final(negotiation) == (Negotiation { failure: true, ..*old(negotiation) }),
{
    negotiation.failure = true;
}

/// The token that is sent with the choice of sources: the one that was asked for explicitly, else
/// the single saved one. On Hyprland, which has a token for each monitor, the single one is not
/// used.
pub open spec fn chosen_token(
    explicit: Option<Seq<char>>,
    single: Seq<char>,
    hyprland: bool,
) -> Option<Seq<char>> {
    match explicit {
        Some(token) if token.len() > 0 => Some(token),
        _ => if !hyprland && single.len() > 0 {
            Some(single)
        } else {
            None
        },
    }
}

fn choose_token(explicit: &Option<String>, single: &str, hyprland: bool) -> (r: Option<String>)
    ensures
        opt_text(r) == chosen_token(opt_text(*explicit), single@, hyprland),
{
    match explicit {
        Some(token) => {
            if !token.as_str().is_empty() {
                return Some(token.clone());
            }
        },
        None => {},
    }
    if !hyprland && !single.is_empty() {
        Some(single.to_owned())
    } else {
        None
    }
}

/// The arguments for the choice of sources while the server runs: monitors only; several at once
/// but on Hyprland, which grants one monitor per session.
pub open spec fn source_args(
    negotiation: NegotiationView,
    hyprland: bool,
    single_token: Seq<char>,
    cursor_modes: Option<u32>,
) -> Map<Seq<char>, ArgView> {
    let none = Map::<Seq<char>, ArgView>::empty();
    let restoring = if negotiation.is_support_restore_token {
        let token = chosen_token(negotiation.restore_token, single_token, hyprland);
        (match token {
            Some(t) => none.insert("restore_token"@, ArgView::Text(t)),
            None => none,
        }).insert("persist_mode"@, ArgView::Number(2))
    } else {
        none
    };
    let chosen = restoring.insert("handle_token"@, ArgView::Text("u3"@)).insert(
        "multiple"@,
        ArgView::Flag(!hyprland),
    ).insert("types"@, ArgView::Number(1));
    if negotiation.capture_cursor && (cursor_modes matches Some(m) && m & 2 != 0) {
        chosen.insert("cursor_mode"@, ArgView::Number(2))
    } else {
        chosen
    }
}

/// The arguments for the choice of devices: keyboard, pointer and touch screen.
pub open spec fn device_args() -> Map<Seq<char>, ArgView> {
    Map::<Seq<char>, ArgView>::empty().insert("handle_token"@, ArgView::Text("u2"@)).insert(
        "types"@,
        ArgView::Number(7),
    )
}

/// The call that follows the creation of a session.
pub open spec fn after_create_session(
    negotiation: NegotiationView,
    session: Seq<char>,
    server_running: bool,
    hyprland: bool,
    single_token: Seq<char>,
    cursor_modes: Option<u32>,
) -> Result<Seq<ActionView>, Seq<char>> {
    if server_running {
        planned_call(
            negotiation.unique_name,
            "u3"@,
            Portal::ScreenCast,
            Method::SelectSources,
            Some(session),
            source_args(negotiation, hyprland, single_token, cursor_modes),
        )
    } else {
        planned_call(
            negotiation.unique_name,
            "u2"@,
            Portal::RemoteDesktop,
            Method::SelectDevices,
            Some(session),
            device_args(),
        )
    }
}

fn make_source_args(
    negotiation: &Negotiation,
    hyprland: bool,
    single_token: &str,
    cursor_modes: Option<u32>,
) -> (r: PortalArgs)
    ensures
        r@ == source_args(negotiation@, hyprland, single_token@, cursor_modes),
{
    let mut args: PortalArgs = PortalArgs::new();
    if should_use_restore_token(negotiation.is_support_restore_token) {
        match choose_token(&negotiation.restore_token, single_token, hyprland) {
            Some(token) => {
                args.insert("restore_token", PortalArg::Text(token));
            },
            None => {},
        }
        args.insert("persist_mode", PortalArg::Number(2));
    }
    args.insert_text("handle_token", "u3");
    args.insert("multiple", PortalArg::Flag(!hyprland));
    args.insert("types", PortalArg::Number(1));
    if negotiation.capture_cursor && supports_embedded_cursor(cursor_modes) {
        args.insert("cursor_mode", PortalArg::Number(2));
    }
    args
}

/// The handle of the session in an answer, if there is one, is an object path.
pub open spec fn has_valid_handle(results: PortalResults) -> bool {
    results.value("session_handle"@) matches Some(a) ==> (a.text matches Some(handle)
        ==> handle@.len() <= MAX_PATH_CHARS && is_object_path(before_nul(handle@)))
}

/// Whether the handle of the session in an answer, if there is one, is an object path.
pub fn session_handle_is_valid(results: &PortalResults) -> (r: bool)
    ensures
        r == has_valid_handle(*results),
{
    match results.get("session_handle") {
        Some(a) => match &a.text {
            Some(handle) => handle.as_str().unicode_len() <= MAX_PATH_CHARS && object_path(
                handle.clone(),
            ).is_some(),
            None => true,
        },
        None => true,
    }
}

/// Takes the answer to the creation of a session: notes the session, and chooses sources, or
/// devices where the server does not run.
///
/// `shown` is the response as it is shown to a reader. `single_token` is the single saved token.
/// `cursor_modes` are the pointer modes that the portal offers, if they were asked for.
pub fn on_create_session_response(
    negotiation: &mut Negotiation,
    results: &PortalResults,
    shown: &str,
    server_running: bool,
    hyprland: bool,
    single_token: &str,
    cursor_modes: Option<u32>,
) -> (r: Result<Vec<PortalAction>, DBusError>)
    requires
        is_short_name(old(negotiation).unique_name@),
        has_valid_handle(*results),
    ensures
        match results.value("session_handle"@) {
            None => {
                &&& *final(negotiation) == *old(negotiation)
                &&& step_view(r) == Err::<Seq<ActionView>, Seq<char>>(
                    "Failed to obtain session_handle from response: "@ + shown@,
                )
            },
            Some(a) => match a.text {
                None => {
                    &&& *final(negotiation) == *old(negotiation)
                    &&& step_view(r) == Err::<Seq<ActionView>, Seq<char>>(
                        "Failed to convert session_handle to string."@,
                    )
                },
                Some(handle) => {
                    &&& *final(negotiation) == (Negotiation {
                        session: Some(handle),
                        ..*old(negotiation)
                    })
                    &&& step_view(r) == after_create_session(
                        old(negotiation)@,
                        handle@,
                        server_running,
                        hyprland,
                        single_token@,
                        cursor_modes,
                    )
                },
            },
        },
{
    let session: String = match results.get("session_handle") {
        None => {
            let mut text: String = "Failed to obtain session_handle from response: ".to_owned();
            text.append(shown);
            return Err(DBusError(text));
        },
        Some(a) => match &a.text {
            None => {
                return Err(DBusError("Failed to convert session_handle to string.".to_owned()));
            },
            Some(handle) => handle.clone(),
        },
    };
    negotiation.session = Some(session.clone());
    proof {
        reveal_strlit("u2");
        reveal_strlit("u3");
    }
    // See `is_server_running` for the two ways.
    if server_running {
        let args: PortalArgs = make_source_args(negotiation, hyprland, single_token, cursor_modes);
        plan_call(
            negotiation.unique_name.as_str(),
            "u3",
            Portal::ScreenCast,
            Method::SelectSources,
            Some(session),
            args,
        )
    } else {
        let mut args: PortalArgs = PortalArgs::new();
        args.insert_text("handle_token", "u2");
        args.insert("types", PortalArg::Number(7));
        plan_call(
            negotiation.unique_name.as_str(),
            "u2",
            Portal::RemoteDesktop,
            Method::SelectDevices,
            Some(session),
            args,
        )
    }
}

/// The arguments for the choice of sources after devices were chosen.
pub open spec fn plain_source_args(server_running: bool) -> Map<Seq<char>, ArgView> {
    let named = Map::<Seq<char>, ArgView>::empty().insert("handle_token"@, ArgView::Text("u3"@));
    (if server_running {
        named.insert("multiple"@, ArgView::Flag(true))
    } else {
        named
    }).insert("types"@, ArgView::Number(1))
}

/// Takes the answer to the choice of devices: chooses sources.
pub fn on_select_devices_response(negotiation: &Negotiation, server_running: bool) -> (r: Result<
    Vec<PortalAction>,
    DBusError,
>)
    requires
        is_short_name(negotiation.unique_name@),
    ensures
        step_view(r) == planned_call(
            negotiation@.unique_name,
            "u3"@,
            Portal::ScreenCast,
            Method::SelectSources,
            negotiation@.session,
            plain_source_args(server_running),
        ),
{
    let mut args: PortalArgs = PortalArgs::new();
    args.insert_text("handle_token", "u3");
    if server_running {
        args.insert("multiple", PortalArg::Flag(true));
    }
    args.insert("types", PortalArg::Number(1));
    proof {
        reveal_strlit("u3");
    }
    plan_call(
        negotiation.unique_name.as_str(),
        "u3",
        Portal::ScreenCast,
        Method::SelectSources,
        copy_text(&negotiation.session),
        args,
    )
}

/// Takes the answer to the choice of sources: starts the session.
pub fn on_select_sources_response(negotiation: &Negotiation, server_running: bool) -> (r: Result<
    Vec<PortalAction>,
    DBusError,
>)
    requires
        is_short_name(negotiation.unique_name@),
    ensures
        step_view(r) == planned_call(
            negotiation@.unique_name,
            "u4"@,
            session_portal(server_running),
            Method::Start,
            negotiation@.session,
            Map::<Seq<char>, ArgView>::empty().insert("handle_token"@, ArgView::Text("u4"@)),
        ),
{
    let mut args: PortalArgs = PortalArgs::new();
    args.insert_text("handle_token", "u4");
    proof {
        reveal_strlit("u4");
    }
    plan_call(
        negotiation.unique_name.as_str(),
        "u4",
        portal_for(server_running),
        Method::Start,
        copy_text(&negotiation.session),
        args,
    )
}

/// The streams that the answer to `Start` grants, at their places.
pub open spec fn granted_streams(
    results: PortalResults,
    ds: Seq<WaylandDisplayInfo>,
    hyprland: bool,
) -> Seq<StreamView> {
    let list = stream_list(results);
    stamped_streams(streams_among(list, list.len()), ds, hyprland)
}

/// The restore token in an answer.
pub open spec fn answered_token(results: PortalResults, server_running: bool) -> Option<Seq<char>> {
    match results.value("restore_token"@) {
        Some(a) if server_running => opt_text(a.text),
        _ => None,
    }
}

/// What becomes of the saved tokens when streams are granted. On Hyprland the token is saved for
/// the monitor that the streams show. Elsewhere it becomes the single token; without one all
/// tokens are forgotten.
pub open spec fn tokens_after_start(
    before: OptionsView,
    after: OptionsView,
    token: Option<Seq<char>>,
    streams: Seq<StreamView>,
    ds: Seq<WaylandDisplayInfo>,
    hyprland: bool,
) -> bool {
    if hyprland {
        match (token, shown_monitor(streams, ds)) {
            (Some(t), Some(monitor)) => token_saved(before, after, monitor, t),
            _ => after == before,
        }
    } else {
        match token {
            Some(t) => after == (OptionsView { restore_token: t, ..before }),
            None => after == cleared_options(),
        }
    }
}

/// Takes the answer to `Start`: notes the streams, and saves the restore token. What is left to
/// do is to open the PipeWire remote.
pub fn on_start_response(
    negotiation: &mut Negotiation,
    results: &PortalResults,
    displays: &Displays,
    options: &mut LocalOptions,
    has_position: &mut bool,
    server_running: bool,
    hyprland: bool,
)
    ensures
        final(negotiation)@ == (NegotiationView {
            streams: old(negotiation)@.streams + granted_streams(
                *results,
                displays.displays@,
                hyprland,
            ),
            ..old(negotiation)@
        }),
        if server_running && old(negotiation).is_support_restore_token {
            tokens_after_start(
                old(options)@,
                final(options)@,
                answered_token(*results, server_running),
                granted_streams(*results, displays.displays@, hyprland),
                displays.displays@,
                hyprland,
            )
        } else {
            final(options)@ == old(options)@
        },
        *final(has_position) == (*old(has_position) || tells_position(stream_list(*results))),
{
    let token: Option<String> = if server_running {
        match results.get("restore_token") {
            Some(a) => copy_text(&a.text),
            None => None,
        }
    } else {
        None
    };
    let mut streams: Vec<PwStreamInfo> = streams_from_response(results, has_position);
    stamp_hyprland_stream_positions(&mut streams, displays, hyprland);
    if server_running && should_use_restore_token(negotiation.is_support_restore_token) {
        if hyprland {
            match (&token, monitor_name_for_streams(&streams, displays)) {
                (Some(token), Some(monitor)) => {
                    save_restore_token_for(options, monitor.as_str(), token.as_str());
                },
                _ => {},
            }
        } else {
            match token {
                Some(token) => {
                    options.restore_token = token;
                },
                None => {
                    clear_restore_token_state(options);
                },
            }
        }
    }
    let ghost before = negotiation.streams@;
    let ghost more = streams@;
    negotiation.streams.append(&mut streams);
    assert(stream_views(before + more) =~= stream_views(before) + stream_views(more));
}

/// Takes the outcome of opening the PipeWire remote.
pub fn on_remote_opened(negotiation: &mut Negotiation, opened: bool)
    ensures
        *final(negotiation) == (Negotiation {
            has_fd: old(negotiation).has_fd || opened,
            failure: old(negotiation).failure || !opened,
            ..*old(negotiation)
        }),
{
    if opened {
        negotiation.has_fd = true;
    } else {
        negotiation.failure = true;
    }
}

/// Whether the conversation is over: the remote is open, or a step failed.
pub fn is_settled(negotiation: &Negotiation) -> (r: bool)
    ensures
        r == settled(negotiation@),
{
    negotiation.has_fd || negotiation.failure
}

/// Whether to wait on for the portal, after so many rounds: the conversation is not over, and
/// the user still has time.
pub fn keep_waiting(negotiation: &Negotiation, rounds: u32) -> (r: bool)
    ensures
        r == (rounds < MAX_WAIT_ROUNDS && !settled(negotiation@)),
{
    rounds < MAX_WAIT_ROUNDS && !is_settled(negotiation)
}

/// What is said where no stream was granted.
pub open spec fn no_capture_text() -> Seq<char> {
    "Failed to obtain screen capture. You may need to upgrade the PipeWire library for better compatibility. Please check https://github.com/rustdesk/rustdesk/issues/8600#issuecomment-2254720954 for more details."@
}

/// Ends the conversation: a session, if the remote is open, the session is known and at least one
/// stream was granted. The application keeps the connection under `id`.
pub fn finish_remote_desktop(negotiation: Negotiation, id: u64) -> (r: Result<
    RdpSessionInfo,
    DBusError,
>)
    ensures
        match r {
            Ok(info) => {
                &&& gives_session(negotiation@)
                &&& info == (RdpSessionInfo {
                    id,
                    streams: negotiation.streams,
                    session: negotiation.session->0,
                    is_support_restore_token: negotiation.is_support_restore_token,
                    resolution: None,
                })
            },
            Err(e) => !gives_session(negotiation@) && e.0@ == no_capture_text(),
        },
{
    if negotiation.has_fd && negotiation.streams.len() > 0 {
        match negotiation.session {
            Some(session) => {
                return Ok(
                    new_rdp_session(
                        id,
                        negotiation.streams,
                        session,
                        negotiation.is_support_restore_token,
                    ),
                );
            },
            None => {},
        }
    }
    Err(
        DBusError(
            "Failed to obtain screen capture. You may need to upgrade the PipeWire library for better compatibility. Please check https://github.com/rustdesk/rustdesk/issues/8600#issuecomment-2254720954 for more details.".to_owned(),
        ),
    )
}

/// A name that the bus gives a connection: a colon, then letters, digits, `_` and `.`.
pub open spec fn is_unique_name(name: Seq<char>) -> bool {
    &&& name.len() > 1 && name[0] == ':'
    &&& forall|i: int| 1 <= i < name.len() ==> is_path_char(#[trigger] name[i]) || name[i] == '.'
}

/// A token: letters, digits and `_`.
pub open spec fn is_handle_token(token: Seq<char>) -> bool {
    &&& token.len() > 0
    &&& forall|i: int| 0 <= i < token.len() ==> is_path_char(#[trigger] token[i])
}

proof fn lemma_no_nul(s: Seq<char>)
    requires
        forall|i: int| 0 <= i < s.len() ==> #[trigger] s[i] != '\0',
    ensures
        before_nul(s) == s,
    decreases s.len(),
{
    if s.len() > 0 {
        assert forall|i: int| 0 <= i < s.drop_first().len() implies #[trigger] s.drop_first()[i]
            != '\0' by {
            assert(s.drop_first()[i] == s[i + 1]);
        }
        lemma_no_nul(s.drop_first());
        assert(s =~= seq![s[0]] + s.drop_first());
    }
}

proof fn lemma_sender_text(name: Seq<char>)
    requires
        is_unique_name(name),
    ensures
        is_handle_token(sender_text(name)),
{
    assert(!(name.drop_first().len() > 0 && name.drop_first()[0] == ':')) by {
        assert(name.drop_first()[0] == name[1]);
    }
    assert(without_colons(name) == name.drop_first()) by {
        reveal_with_fuel(without_colons, 2);
    }
    let text = sender_text(name);
    assert forall|i: int| 0 <= i < text.len() implies is_path_char(#[trigger] text[i]) by {
        assert(name.drop_first()[i] == name[i + 1]);
    }
}

/// The path at which the requests of a connection are answered is an object path, so that the
/// conversation does not fail on it, whatever name the bus gave the connection.
pub proof fn law_request_path_is_valid(unique_name: Seq<char>, handle_token: Seq<char>)
    requires
        is_unique_name(unique_name),
        is_handle_token(handle_token),
    ensures
        checked_path(unique_name, handle_token) == Ok::<Seq<char>, Seq<char>>(
            request_path(unique_name, handle_token),
        ),
{
    reveal_strlit("/org/freedesktop/portal/desktop/request/");
    reveal_strlit("/");
    let prefix = "/org/freedesktop/portal/desktop/request/"@;
    let sender = sender_text(unique_name);
    lemma_sender_text(unique_name);
    let path = request_path(unique_name, handle_token);
    let slash = prefix.len() + sender.len();
    assert(prefix.len() == 40 && path[slash as int] == '/');
    assert forall|i: int| 0 <= i < 40 implies path[i] == prefix[i] && (#[trigger] path[i] == '/'
        || is_path_char(path[i])) by {}
    assert forall|i: int| 40 <= i < slash implies is_path_char(#[trigger] path[i]) by {
        assert(path[i] == sender[i - 40]);
    }
    assert forall|i: int| slash < i < path.len() implies is_path_char(#[trigger] path[i]) by {
        assert(path[i] == handle_token[i - slash - 1]);
    }
    lemma_no_nul(path);
    assert forall|i: int|
        #![trigger path[i]]
        0 <= i < path.len() - 1 && path[i] == '/' implies path[i + 1] != '/' by {
        if i < 39 {
            assert(path[i] == prefix[i] && path[i + 1] == prefix[i + 1]);
        } else {
            assert(i == 39 || i == slash);
            assert(is_path_char(path[i + 1]));
        }
    }
    assert(path.last() == handle_token.last());
}

/// Requests with different tokens are answered at different paths, so that an answer is never
/// taken for that to another request.
pub proof fn law_request_paths_differ(unique_name: Seq<char>, a: Seq<char>, b: Seq<char>)
    requires
        a != b,
    ensures
        request_path(unique_name, a) != request_path(unique_name, b),
{
    let head = "/org/freedesktop/portal/desktop/request/"@ + sender_text(unique_name) + "/"@;
    let (p, q) = (request_path(unique_name, a), request_path(unique_name, b));
    assert(p.skip(head.len() as int) =~= a);
    assert(q.skip(head.len() as int) =~= b);
}

/// An explicit token takes precedence over the single one, which Hyprland never uses.
pub proof fn law_explicit_token_comes_first(
    explicit: Seq<char>,
    single: Seq<char>,
    hyprland: bool,
)
    ensures
        explicit.len() > 0 ==> chosen_token(Some(explicit), single, hyprland) == Some(explicit),
        chosen_token(None, single, true) is None,
        chosen_token(None, single, false) == (if single.len() > 0 {
            Some(single)
        } else {
            None
        }),
{
}

/// What was granted can be restored after a restart. On Hyprland, the token of a grant goes with
/// the first request for the monitor that the grant showed. Elsewhere, it goes with the next
/// conversation.
pub proof fn law_grant_is_restored(
    before: OptionsView,
    after: OptionsView,
    token: Seq<char>,
    streams: Seq<StreamView>,
    ds: Seq<WaylandDisplayInfo>,
    monitors: Seq<Seq<char>>,
    hyprland: bool,
)
    requires
        tokens_after_start(before, after, Some(token), streams, ds, hyprland),
        token.len() > 0,
    ensures
        hyprland ==> (shown_monitor(streams, ds) matches Some(monitor) ==> monitor.len() > 0 ==> {
            let offered = MonitorGrants::start(
                monitors,
                stored_tokens(after.restore_tokens),
            ).offered_token(monitor);
            &&& offered == Some(token)
            &&& chosen_token(offered, after.restore_token, hyprland) == Some(token)
        }),
        !hyprland ==> chosen_token(None, after.restore_token, hyprland) == Some(token),
{
    if hyprland {
        match shown_monitor(streams, ds) {
            Some(monitor) => {
                if monitor.len() > 0 {
                    law_saved_token_is_found(before, after, monitor, token);
                }
            },
            None => {},
        }
    }
}

/// A request that the user or the portal refuses ends the conversation, and it gives no session,
/// unless the remote was open before.
pub proof fn law_refusal_gives_no_session(negotiation: NegotiationView, code: u32)
    requires
        !negotiation.has_fd,
        code != 0,
    ensures
        settled(after_response(negotiation, code)),
        !gives_session(after_response(negotiation, code)),
{
}

/// The answer to a call cannot be missed: whatever step is planned, one listens at the path where
/// its call is answered before the call is made, and the call is made once.
pub proof fn law_one_listens_before_the_call(
    unique_name: Seq<char>,
    handle_token: Seq<char>,
    portal: Portal,
    method: Method,
    session: Option<Seq<char>>,
    args: Map<Seq<char>, ArgView>,
)
    ensures
        planned_call(unique_name, handle_token, portal, method, session, args) matches Ok(actions)
            ==> {
            &&& actions.len() == 2
            &&& actions[0] == ActionView::Listen(method, request_path(unique_name, handle_token))
            &&& actions[1] matches ActionView::Call(request) && {
                &&& request.method == method
                &&& request.response_path == request_path(unique_name, handle_token)
            }
        },
{
}

/// The names of arguments are told apart.
proof fn lemma_names_differ()
    ensures
        "restore_token"@ != "persist_mode"@,
        "restore_token"@ != "handle_token"@,
        "restore_token"@ != "multiple"@,
        "restore_token"@ != "types"@,
        "restore_token"@ != "cursor_mode"@,
        "persist_mode"@ != "handle_token"@,
        "persist_mode"@ != "multiple"@,
        "persist_mode"@ != "types"@,
        "persist_mode"@ != "cursor_mode"@,
        "handle_token"@ != "multiple"@,
        "handle_token"@ != "types"@,
        "handle_token"@ != "cursor_mode"@,
        "handle_token"@ != "session_handle_token"@,
        "multiple"@ != "types"@,
        "multiple"@ != "cursor_mode"@,
        "types"@ != "cursor_mode"@,
{
    reveal_strlit("restore_token");
    reveal_strlit("persist_mode");
    reveal_strlit("handle_token");
    reveal_strlit("session_handle_token");
    reveal_strlit("multiple");
    reveal_strlit("types");
    reveal_strlit("cursor_mode");
    assert("restore_token"@.len() == 13 && "persist_mode"@.len() == 12);
    assert("handle_token"@.len() == 12 && "session_handle_token"@.len() == 20);
    assert("multiple"@.len() == 8 && "types"@.len() == 5 && "cursor_mode"@.len() == 11);
    assert("persist_mode"@[0] == 'p' && "handle_token"@[0] == 'h');
}

/// An argument is given, with this value.
pub open spec fn carries(args: Map<Seq<char>, ArgView>, name: Seq<char>, value: ArgView) -> bool {
    args.contains_key(name) && args[name] == value
}

/// While the server runs, the creation of a session is followed by the choice of its sources,
/// and the token of the grant that is to be repeated goes with that call: the one that was asked
/// for explicitly, on every desktop; without one, the single saved token, which Hyprland never
/// uses. Where no token is to be used, or the portal knows none, the call carries none.
pub proof fn law_sources_call_carries_the_token(
    negotiation: NegotiationView,
    session: Seq<char>,
    hyprland: bool,
    single_token: Seq<char>,
    cursor_modes: Option<u32>,
)
    requires
        is_unique_name(negotiation.unique_name),
    ensures
        after_create_session(
            negotiation,
            session,
            true,
            hyprland,
            single_token,
            cursor_modes,
        ) matches Ok(actions) && actions.len() == 2 && (actions[1] matches ActionView::Call(request)
            && {
            let explicit = negotiation.restore_token;
            let known = negotiation.is_support_restore_token;
            &&& request.method == Method::SelectSources
            &&& request.session == Some(session)
            &&& known && (explicit matches Some(t) && t.len() > 0) ==> carries(
                request.args,
                "restore_token"@,
                ArgView::Text(explicit->0),
            )
            &&& known && (explicit is None || explicit->0.len() == 0) && !hyprland
                && single_token.len() > 0 ==> carries(
                request.args,
                "restore_token"@,
                ArgView::Text(single_token),
            )
            &&& (explicit is None || explicit->0.len() == 0) && (hyprland || single_token.len()
                == 0) ==> !request.args.contains_key("restore_token"@)
            &&& !known ==> !request.args.contains_key("restore_token"@)
        }),
{
    reveal_strlit("u3");
    lemma_names_differ();
    law_request_path_is_valid(negotiation.unique_name, "u3"@);
}

/// While the server runs, the sources are monitors, several at once but on Hyprland; the grant is
/// to persist where the portal knows tokens; and the pointer is drawn into the streams just where
/// that was asked for and the portal can do it. Nothing else is asked for.
pub proof fn law_sources_call_asks_for_monitors(
    negotiation: NegotiationView,
    session: Seq<char>,
    hyprland: bool,
    single_token: Seq<char>,
    cursor_modes: Option<u32>,
)
    requires
        is_unique_name(negotiation.unique_name),
    ensures
        after_create_session(
            negotiation,
            session,
            true,
            hyprland,
            single_token,
            cursor_modes,
        ) matches Ok(actions) && actions.len() == 2 && (actions[1] matches ActionView::Call(request)
            && {
            let args = request.args;
            &&& request.portal == Portal::ScreenCast
            &&& request.response_path == request_path(negotiation.unique_name, "u3"@)
            &&& carries(args, "handle_token"@, ArgView::Text("u3"@))
            &&& carries(args, "types"@, ArgView::Number(1))
            &&& carries(args, "multiple"@, ArgView::Flag(!hyprland))
            &&& negotiation.is_support_restore_token ==> carries(
                args,
                "persist_mode"@,
                ArgView::Number(2),
            )
            &&& !negotiation.is_support_restore_token ==> !args.contains_key("persist_mode"@)
            &&& negotiation.capture_cursor && cursor_modes is Some && cursor_modes->0 & 2 != 0
                ==> carries(args, "cursor_mode"@, ArgView::Number(2))
            &&& !negotiation.capture_cursor || cursor_modes is None || cursor_modes->0 & 2 == 0
                ==> !args.contains_key("cursor_mode"@)
            &&& forall|name: Seq<char>| #[trigger]
                args.contains_key(name) ==> name == "handle_token"@ || name == "types"@ || name
                    == "multiple"@ || name == "persist_mode"@ || name == "cursor_mode"@ || name
                    == "restore_token"@
        }),
{
    reveal_strlit("u3");
    lemma_names_differ();
    law_request_path_is_valid(negotiation.unique_name, "u3"@);
}

/// Without the server, the creation of a session is followed by the choice of devices, on the
/// portal that also takes input: keyboard, pointer and touch screen.
pub proof fn law_devices_are_chosen_without_a_server(
    negotiation: NegotiationView,
    session: Seq<char>,
    hyprland: bool,
    single_token: Seq<char>,
    cursor_modes: Option<u32>,
)
    requires
        is_unique_name(negotiation.unique_name),
    ensures
        after_create_session(
            negotiation,
            session,
            false,
            hyprland,
            single_token,
            cursor_modes,
        ) matches Ok(actions) && actions.len() == 2 && (actions[1] matches ActionView::Call(request)
            && {
            &&& request.portal == Portal::RemoteDesktop
            &&& request.method == Method::SelectDevices
            &&& request.session == Some(session)
            &&& request.response_path == request_path(negotiation.unique_name, "u2"@)
            &&& carries(request.args, "handle_token"@, ArgView::Text("u2"@))
            &&& carries(request.args, "types"@, ArgView::Number(7))
            &&& forall|name: Seq<char>| #[trigger]
                request.args.contains_key(name) ==> name == "handle_token"@ || name == "types"@
        }),
{
    reveal_strlit("u2");
    lemma_names_differ();
    law_request_path_is_valid(negotiation.unique_name, "u2"@);
}

/// The sources that are chosen after devices are monitors, several at once while the server runs.
pub proof fn law_plain_sources_are_monitors(server_running: bool)
    ensures
        carries(plain_source_args(server_running), "handle_token"@, ArgView::Text("u3"@)),
        carries(plain_source_args(server_running), "types"@, ArgView::Number(1)),
        server_running ==> carries(
            plain_source_args(server_running),
            "multiple"@,
            ArgView::Flag(true),
        ),
        !server_running ==> !plain_source_args(server_running).contains_key("multiple"@),
        forall|name: Seq<char>| #[trigger]
            plain_source_args(server_running).contains_key(name) ==> name == "handle_token"@ || name
                == "types"@ || name == "multiple"@,
{
    lemma_names_differ();
}

/// The portal with restorable sessions serves while the server runs, the one that takes input
/// else; both for the creation of a session and for its start.
pub proof fn law_server_decides_the_portal(unique_name: Seq<char>, server_running: bool)
    requires
        is_unique_name(unique_name),
    ensures
        server_running ==> session_portal(server_running) == Portal::ScreenCast,
        !server_running ==> session_portal(server_running) == Portal::RemoteDesktop,
        create_session_call(unique_name, server_running) matches Ok(actions) && actions.len() == 2
            && (actions[1] matches ActionView::Call(request) && {
            &&& server_running ==> request.portal == Portal::ScreenCast
            &&& !server_running ==> request.portal == Portal::RemoteDesktop
            &&& request.method == Method::CreateSession
            &&& request.session is None
            &&& request.response_path == request_path(unique_name, "u1"@)
            &&& carries(request.args, "handle_token"@, ArgView::Text("u1"@))
            &&& carries(request.args, "session_handle_token"@, ArgView::Text("u1"@))
            &&& forall|name: Seq<char>| #[trigger]
                request.args.contains_key(name) ==> name == "handle_token"@ || name
                    == "session_handle_token"@
        }),
{
    reveal_strlit("u1");
    lemma_names_differ();
    law_request_path_is_valid(unique_name, "u1"@);
}

/// A token that is asked for at the start of a conversation goes with the choice of sources, on
/// every desktop, whatever single token is saved.
pub proof fn law_requested_token_reaches_the_portal(
    unique_name: Seq<char>,
    capture_cursor: bool,
    token: Seq<char>,
    session: Seq<char>,
    hyprland: bool,
    single_token: Seq<char>,
    cursor_modes: Option<u32>,
)
    requires
        is_unique_name(unique_name),
        token.len() > 0,
    ensures
        after_create_session(
            opened(unique_name, true, capture_cursor, Some(token)),
            session,
            true,
            hyprland,
            single_token,
            cursor_modes,
        ) matches Ok(actions) && actions.len() == 2 && (actions[1] matches ActionView::Call(request)
            && carries(request.args, "restore_token"@, ArgView::Text(token))),
{
    law_sources_call_carries_the_token(
        opened(unique_name, true, capture_cursor, Some(token)),
        session,
        hyprland,
        single_token,
        cursor_modes,
    );
}

/// What was granted is restored by the next conversation: the token that came with the grant goes
/// with the choice of sources. On Hyprland that is the conversation for the monitor that the
/// grant showed, when that monitor is requested for the first time after a restart, whatever
/// other monitors were requested before. Elsewhere it is any conversation.
pub proof fn law_restored_grant_reaches_the_portal(
    before: OptionsView,
    after: OptionsView,
    token: Seq<char>,
    streams: Seq<StreamView>,
    ds: Seq<WaylandDisplayInfo>,
    point: MonitorGrants,
    unique_name: Seq<char>,
    session: Seq<char>,
    hyprland: bool,
)
    requires
        tokens_after_start(before, after, Some(token), streams, ds, hyprland),
        token.len() > 0,
        is_unique_name(unique_name),
        point.saved == stored_tokens(after.restore_tokens),
    ensures
        hyprland ==> (shown_monitor(streams, ds) matches Some(monitor) ==> monitor.len() > 0
            && !point.tried.contains(monitor) ==> (after_create_session(
            opened(unique_name, true, false, point.offered_token(monitor)),
            session,
            true,
            true,
            after.restore_token,
            None,
        ) matches Ok(actions) && actions.len() == 2 && (actions[1] matches ActionView::Call(request)
            && carries(request.args, "restore_token"@, ArgView::Text(token))))),
        !hyprland ==> (after_create_session(
            opened(unique_name, true, false, None),
            session,
            true,
            false,
            after.restore_token,
            None,
        ) matches Ok(actions) && actions.len() == 2 && (actions[1] matches ActionView::Call(request)
            && carries(request.args, "restore_token"@, ArgView::Text(token)))),
{
    if hyprland {
        match shown_monitor(streams, ds) {
            Some(monitor) => {
                if monitor.len() > 0 {
                    law_saved_token_is_found(before, after, monitor, token);
                }
                law_sources_call_carries_the_token(
                    opened(unique_name, true, false, point.offered_token(monitor)),
                    session,
                    true,
                    after.restore_token,
                    None,
                );
            },
            None => {},
        }
    } else {
        law_sources_call_carries_the_token(
            opened(unique_name, true, false, None),
            session,
            false,
            after.restore_token,
            None,
        );
    }
}

/// What becomes of the saved options when streams are granted. Off Hyprland a token replaces the
/// single one and leaves all else as it was; without a token all is forgotten. On Hyprland the
/// options stay as they are without a token, or where the streams show no monitor; else the
/// cache of positions stays, and no monitor but the shown one is concerned.
pub proof fn law_grant_updates_the_options(
    before: OptionsView,
    after: OptionsView,
    token: Option<Seq<char>>,
    streams: Seq<StreamView>,
    ds: Seq<WaylandDisplayInfo>,
    hyprland: bool,
)
    requires
        tokens_after_start(before, after, token, streams, ds, hyprland),
    ensures
        !hyprland && token is Some ==> {
            &&& after.restore_token == token->0
            &&& after.restore_tokens == before.restore_tokens
            &&& after.display_offset == before.display_offset
        },
        !hyprland && token is None ==> {
            &&& after.restore_token.len() == 0
            &&& after.restore_tokens.len() == 0
            &&& after.display_offset.len() == 0
        },
        hyprland && (token is None || shown_monitor(streams, ds) is None) ==> after == before,
        hyprland ==> after.display_offset == before.display_offset,
        hyprland ==> forall|other: Seq<char>|
            shown_monitor(streams, ds) != Some(other) ==> {
                &&& #[trigger] stored_tokens(after.restore_tokens).contains_key(other)
                    == stored_tokens(before.restore_tokens).contains_key(other)
                &&& stored_tokens(after.restore_tokens).contains_key(other) ==> stored_tokens(
                    after.restore_tokens,
                )[other] == stored_tokens(before.restore_tokens)[other]
            },
{
}

/// The conversation starts with what was asked for, and with nothing granted.
pub proof fn law_conversation_starts_empty(
    unique_name: Seq<char>,
    known: bool,
    capture_cursor: bool,
    restore_token: Option<Seq<char>>,
)
    ensures
        ({
            let start = opened(unique_name, known, capture_cursor, restore_token);
            &&& start.unique_name == unique_name
            &&& start.session is None
            &&& start.streams.len() == 0
            &&& !start.has_fd && !start.failure
            &&& start.is_support_restore_token == known
            &&& start.capture_cursor == capture_cursor
            &&& start.restore_token == restore_token
            &&& !settled(start)
            &&& !gives_session(start)
        }),
{
}

/// The conversation is over exactly when the remote is open or a step failed, and it gives a
/// session exactly when the remote is open, the session is known and some stream was granted.
/// A response with the code 0 changes nothing, and any other marks a failure and nothing else.
pub proof fn law_end_of_the_conversation(negotiation: NegotiationView, code: u32)
    ensures
        settled(negotiation) <==> negotiation.has_fd || negotiation.failure,
        gives_session(negotiation) <==> negotiation.has_fd && negotiation.session is Some
            && negotiation.streams.len() > 0,
        code == 0 ==> after_response(negotiation, code) == negotiation,
        code != 0 ==> after_response(negotiation, code).failure,
        after_response(negotiation, code).has_fd == negotiation.has_fd,
        after_response(negotiation, code).session == negotiation.session,
        after_response(negotiation, code).streams == negotiation.streams,
        after_response(negotiation, code).unique_name == negotiation.unique_name,
        after_response(negotiation, code).restore_token == negotiation.restore_token,
{
}

/// The path of a request: the place of all requests, then the name of the connection, character
/// by character, without its colon and with `_` for each `.`, then the token.
pub proof fn law_request_path_names_the_connection(
    unique_name: Seq<char>,
    handle_token: Seq<char>,
)
    requires
        is_unique_name(unique_name),
    ensures
        ({
            let path = request_path(unique_name, handle_token);
            let head = "/org/freedesktop/portal/desktop/request/"@;
            let n = unique_name.len() - 1;
            &&& path.len() == head.len() + n + 1 + handle_token.len()
            &&& path.take(head.len() as int) == head
            &&& forall|i: int|
                0 <= i < n ==> #[trigger] path[head.len() + i] == (if unique_name[i + 1] == '.' {
                    '_'
                } else {
                    unique_name[i + 1]
                })
            &&& path[head.len() + n] == '/'
            &&& path.skip(head.len() + n + 1) == handle_token
        }),
{
    let head = "/org/freedesktop/portal/desktop/request/"@;
    reveal_strlit("/");
    assert(!(unique_name.drop_first().len() > 0 && unique_name.drop_first()[0] == ':')) by {
        assert(unique_name.drop_first()[0] == unique_name[1]);
    }
    assert(without_colons(unique_name) == unique_name.drop_first()) by {
        reveal_with_fuel(without_colons, 2);
    }
    let path = request_path(unique_name, handle_token);
    let sender = sender_text(unique_name);
    assert(path.take(head.len() as int) =~= head);
    assert(path.skip(head.len() + sender.len() + 1int) =~= handle_token);
    assert forall|i: int| 0 <= i < sender.len() implies #[trigger] path[head.len() + i] == (
    if unique_name[i + 1] == '.' {
        '_'
    } else {
        unique_name[i + 1]
    }) by {
        assert(path[head.len() + i] == sender[i]);
        assert(unique_name.drop_first()[i] == unique_name[i + 1]);
    }
}

/// The streams of a grant are those that the answer lists, in their order. Their node, kind and
/// size are as described; so is their place, but on Hyprland it is that of the monitor that the
/// description names, if there is one.
pub proof fn law_grant_holds_the_listed_streams(
    results: PortalResults,
    ds: Seq<WaylandDisplayInfo>,
    hyprland: bool,
    n: int,
    i: int,
)
    requires
        ({
            let listed = streams_among(stream_list(results), stream_list(results).len());
            &&& 0 <= n < listed.len()
            &&& 0 <= i <= ds.len()
            &&& listed[n].mapping_id matches Some(id) ==> forall|k: int|
                0 <= k < i ==> (#[trigger] ds[k]).name@ != id
            &&& i < ds.len() ==> listed[n].mapping_id == Some(ds[i].name@)
        }),
    ensures
        ({
            let listed = streams_among(stream_list(results), stream_list(results).len());
            let granted = granted_streams(results, ds, hyprland);
            &&& granted.len() == listed.len()
            &&& granted[n].path == listed[n].path && granted[n].size == listed[n].size
            &&& granted[n].source_type == listed[n].source_type
            &&& granted[n].mapping_id == listed[n].mapping_id
            &&& hyprland && i < ds.len() ==> granted[n].position == (ds[i].x, ds[i].y)
            &&& !hyprland || i == ds.len() ==> granted[n].position == listed[n].position
        }),
{
    let listed = streams_among(stream_list(results), stream_list(results).len());
    law_streams_are_stamped_by_name(listed, ds, hyprland, n, i);
}

/// The token of a grant is the text beside `restore_token` in the answer, and none without the
/// server, without that name, or where the value is no text.
pub proof fn law_token_of_an_answer(results: PortalResults, server_running: bool)
    ensures
        !server_running ==> answered_token(results, server_running) is None,
        results.value("restore_token"@) is None ==> answered_token(
            results,
            server_running,
        ) is None,
        server_running && results.value("restore_token"@) is Some && (results.value(
            "restore_token"@,
        )->0).text is None ==> answered_token(results, server_running) is None,
        server_running && results.value("restore_token"@) is Some && (results.value(
            "restore_token"@,
        )->0).text is Some ==> answered_token(results, server_running) == Some(
            (results.value("restore_token"@)->0).text->0@,
        ),
{
}

/// Where no session came of a conversation, the user is told what may help.
pub proof fn law_failure_tells_what_may_help()
    ensures
        no_capture_text() == "Failed to obtain screen capture. You may need to upgrade the PipeWire library for better compatibility. Please check https://github.com/rustdesk/rustdesk/issues/8600#issuecomment-2254720954 for more details."@,
{
}

} // verus!
