//! Choosing among windows, finding the sessions that hold one, and rendering
//! rows without what they keep private.

use vstd::prelude::*;

use crate::decimal;
use crate::decimal::format_unsigned;
use crate::snapshot::projection;
use crate::snapshot::projection::PaneProjection;
use crate::snapshot::projection::WindowLink;
use crate::snapshot::projection::WindowProjection;
use crate::snapshot::record;
use crate::target;
use crate::target::ServerIdentity;
use crate::target::SessionId;
use crate::target::WindowId;
use crate::text;
use crate::text::render_bool;
use crate::text::render_struct;

verus! {

/// Why no window can be chosen.
#[derive(Clone, Copy, Debug, PartialEq, Eq, Structural)]
pub enum PointSelectionError {
    /// The candidates belong to more than one session.
    MixedSession,
}

impl PointSelectionError {
    /// The error's message.
    pub fn message(&self) -> (message: &'static str)
        ensures
            message@ == "mixed Session candidates"@,
    {
        "mixed Session candidates"
    }
}

/// Whether all candidates belong to the session of the first.
pub open spec fn one_session(candidates: Seq<projection::WindowProjectionV>) -> bool {
    forall|i: int|
        0 <= i < candidates.len() ==> (#[trigger] candidates[i]).link.identity.session
            == candidates[0].link.identity.session
}

/// The position of the first active candidate.
pub open spec fn first_active(candidates: Seq<projection::WindowProjectionV>, from: int) -> Option<int>
    decreases candidates.len() - from,
{
    if from < 0 || from >= candidates.len() {
        None
    } else if candidates[from].link.window_active {
        Some(from)
    } else {
        first_active(candidates, from + 1)
    }
}

/// The position of the first candidate with the lowest index, among the first
/// `count`.
pub open spec fn first_lowest(candidates: Seq<projection::WindowProjectionV>, count: int) -> int
    decreases count,
{
    if count <= 1 {
        0
    } else {
        let lowest = first_lowest(candidates, count - 1);
        if candidates[count - 1].link.identity.index < candidates[lowest].link.identity.index {
            count - 1
        } else {
            lowest
        }
    }
}

/// The position of the candidate that stands for its session: the first active
/// one, or the first with the lowest index.
pub open spec fn chosen(candidates: Seq<projection::WindowProjectionV>) -> Result<
    Option<int>,
    PointSelectionError,
> {
    if candidates.len() == 0 {
        Ok(None)
    } else if !one_session(candidates) {
        Err(PointSelectionError::MixedSession)
    } else {
        match first_active(candidates, 0) {
            Some(index) => Ok(Some(index)),
            None => Ok(Some(first_lowest(candidates, candidates.len() as int))),
        }
    }
}

/// Choose the window that stands for its session: the first active one, or the
/// first with the lowest index.
///
/// # Errors
///
/// [`PointSelectionError::MixedSession`] if the candidates belong to more than
/// one session.
pub fn select_local_window_projection(projections: &[WindowProjection]) -> (choice: Result<
    Option<&WindowProjection>,
    PointSelectionError,
>)
    ensures
        match chosen(projection::window_views(projections@)) {
            Err(failure) => choice == Err::<Option<&WindowProjection>, PointSelectionError>(
                failure,
            ),
            Ok(None) => choice == Ok::<Option<&WindowProjection>, PointSelectionError>(None),
            Ok(Some(index)) => 0 <= index < projections@.len() && choice == Ok::<
                Option<&WindowProjection>,
                PointSelectionError,
            >(Some(&projections@[index])),
        },
{
    let ghost views = projection::window_views(projections@);
    if projections.len() == 0 {
        return Ok(None);
    }
    let session_id = projections[0].link.identity.session_id();
    let mut index: usize = 0;
    while index < projections.len()
        invariant
            index <= projections@.len(),
            projections@.len() > 0,
            views == projection::window_views(projections@),
            session_id@ == views[0].link.identity.session,
            forall|i: int|
                0 <= i < index ==> (#[trigger] views[i]).link.identity.session
                    == views[0].link.identity.session,
        decreases projections@.len() - index,
    {
        if !projections[index].link.identity.session_id().same(&session_id) {
            assert(views[index as int].link.identity.session != views[0].link.identity.session);
            return Err(PointSelectionError::MixedSession);
        }
        assert(views[index as int] == projections@[index as int]@);
        index += 1;
    }
    assert(one_session(views));
    let mut active: usize = 0;
    while active < projections.len()
        invariant
            active <= projections@.len(),
            projections@.len() > 0,
            views == projection::window_views(projections@),
            one_session(views),
            first_active(views, 0) == first_active(views, active as int),
        decreases projections@.len() - active,
    {
        assert(views[active as int] == projections@[active as int]@);
        if projections[active].link.window_active {
            return Ok(Some(&projections[active]));
        }
        active += 1;
    }
    let mut lowest: usize = 0;
    let mut count: usize = 1;
    while count < projections.len()
        invariant
            1 <= count <= projections@.len(),
            lowest < count,
            views == projection::window_views(projections@),
            lowest == first_lowest(views, count as int),
        decreases projections@.len() - count,
    {
        assert(views[count as int] == projections@[count as int]@);
        assert(views[lowest as int] == projections@[lowest as int]@);
        if projections[count].link.identity.window_index()
            < projections[lowest].link.identity.window_index() {
            lowest = count;
        }
        count += 1;
    }
    Ok(Some(&projections[lowest]))
}

proof fn lemma_first_active(candidates: Seq<projection::WindowProjectionV>, from: int)
    requires
        0 <= from,
    ensures
        match first_active(candidates, from) {
            Some(index) => from <= index < candidates.len() && candidates[index].link.window_active
                && forall|i: int|
                from <= i < index ==> !(#[trigger] candidates[i]).link.window_active,
            None => forall|i: int|
                from <= i < candidates.len() ==> !(#[trigger] candidates[i]).link.window_active,
        },
    decreases candidates.len() - from,
{
    if from < candidates.len() && !candidates[from].link.window_active {
        lemma_first_active(candidates, from + 1);
    }
}

proof fn lemma_first_lowest(candidates: Seq<projection::WindowProjectionV>, count: int)
    requires
        1 <= count <= candidates.len(),
    ensures
        0 <= first_lowest(candidates, count) < count,
        forall|i: int|
            0 <= i < count ==> candidates[first_lowest(candidates, count)].link.identity.index
                <= (#[trigger] candidates[i]).link.identity.index,
        forall|i: int|
            0 <= i < first_lowest(candidates, count) ==> candidates[first_lowest(
                candidates,
                count,
            )].link.identity.index < (#[trigger] candidates[i]).link.identity.index,
    decreases count,
{
    if count > 1 {
        lemma_first_lowest(candidates, count - 1);
    }
}

/// Whether a candidate is preferred over another one: an active one over one
/// that is not, then, where none is active, the lower index, then the earlier
/// row.
pub open spec fn preferred(
    candidates: Seq<projection::WindowProjectionV>,
    one: int,
    other: int,
) -> bool {
    let active = candidates[one].link.window_active;
    let rival = candidates[other].link.window_active;
    let index = candidates[one].link.identity.index;
    let rival_index = candidates[other].link.identity.index;
    if active || rival {
        active && (!rival || one <= other)
    } else {
        index < rival_index || index == rival_index && one <= other
    }
}

/// A session's window is chosen wherever there are candidates of one session,
/// and the choice is preferred over every candidate.
pub proof fn law_the_choice_is_preferred(
    candidates: Seq<projection::WindowProjectionV>,
    other: int,
)
    requires
        one_session(candidates),
        0 <= other < candidates.len(),
    ensures
        chosen(candidates) matches Ok(Some(index)) && 0 <= index < candidates.len() && preferred(
            candidates,
            index,
            other,
        ),
{
    lemma_first_active(candidates, 0);
    lemma_first_lowest(candidates, candidates.len() as int);
}

/// Whether a row is an edge of a window on a server.
pub open spec fn holds(row: projection::WindowProjectionV, server: Seq<u8>, window: u32) -> bool {
    row.link.identity.server == server && row.link.identity.window == window
}

/// The sessions that hold a window, each once, in the order of their first
/// edges.
pub open spec fn holders(
    rows: Seq<projection::WindowProjectionV>,
    server: Seq<u8>,
    window: u32,
) -> Seq<u32>
    decreases rows.len(),
{
    if rows.len() == 0 {
        Seq::empty()
    } else {
        let earlier = holders(rows.drop_last(), server, window);
        let session = rows.last().link.identity.session;
        if holds(rows.last(), server, window) && !earlier.contains(session) {
            earlier.push(session)
        } else {
            earlier
        }
    }
}

/// Session identities in contracts.
pub open spec fn session_views(sessions: Seq<SessionId>) -> Seq<u32> {
    sessions.map_values(|session: SessionId| session@)
}

/// List the sessions that hold a window, each once, in the order of their
/// first edges. Only the identities of the edges decide.
pub fn holder_session_ids(
    projections: &[WindowProjection],
    server_identity: &ServerIdentity,
    window_id: &WindowId,
) -> (sessions: Vec<SessionId>)
    ensures
        session_views(sessions@) == holders(
            projection::window_views(projections@),
            server_identity@,
            window_id@,
        ),
{
    let ghost views = projection::window_views(projections@);
    let mut sessions: Vec<SessionId> = Vec::new();
    let mut index: usize = 0;
    assert(views.take(0) =~= Seq::empty());
    assert(session_views(sessions@) =~= Seq::empty());
    while index < projections.len()
        invariant
            index <= projections@.len(),
            views == projection::window_views(projections@),
            session_views(sessions@) == holders(
                views.take(index as int),
                server_identity@,
                window_id@,
            ),
        decreases projections@.len() - index,
    {
        let ghost longer = views.take(index + 1);
        assert(longer.drop_last() =~= views.take(index as int));
        assert(longer.last() == projections@[index as int]@);
        let identity = projections[index].link.identity();
        if *identity.server_identity() == *server_identity && identity.window_id().same(window_id) {
            let session_id = identity.session_id();
            if !contains_session(&sessions, &session_id) {
                let ghost before = session_views(sessions@);
                sessions.push(session_id);
                assert(session_views(sessions@) =~= before.push(session_id@));
            }
        }
        index += 1;
    }
    assert(views.take(projections@.len() as int) =~= views);
    sessions
}

/// Report whether a list holds a session.
fn contains_session(sessions: &Vec<SessionId>, session: &SessionId) -> (found: bool)
    ensures
        found == session_views(sessions@).contains(session@),
{
    let mut index: usize = 0;
    while index < sessions.len()
        invariant
            index <= sessions@.len(),
            forall|i: int| 0 <= i < index ==> (#[trigger] session_views(sessions@)[i]) != session@,
        decreases sessions@.len() - index,
    {
        if sessions[index].same(session) {
            assert(session_views(sessions@)[index as int] == session@);
            return true;
        }
        index += 1;
    }
    false
}

/// The holders of a window are exactly the sessions that have an edge to it.
pub proof fn law_holders_are_the_sessions_with_an_edge(
    rows: Seq<projection::WindowProjectionV>,
    server: Seq<u8>,
    window: u32,
    session: u32,
)
    ensures
        holders(rows, server, window).contains(session) <==> exists|i: int|
            0 <= i < rows.len() && holds(#[trigger] rows[i], server, window)
                && rows[i].link.identity.session == session,
    decreases rows.len(),
{
    if rows.len() > 0 {
        let head = rows.drop_last();
        law_holders_are_the_sessions_with_an_edge(head, server, window, session);
        let earlier = holders(head, server, window);
        let last = rows.last().link.identity.session;
        if earlier.contains(session) {
            let i = choose|i: int|
                0 <= i < head.len() && holds(#[trigger] head[i], server, window)
                    && head[i].link.identity.session == session;
            assert(rows[i] == head[i]);
            if holds(rows.last(), server, window) && !earlier.contains(last) {
                let at = choose|at: int| 0 <= at < earlier.len() && earlier[at] == session;
                assert(earlier.push(last)[at] == session);
            }
        } else {
            if holds(rows.last(), server, window) && last == session {
                assert(holders(rows, server, window)[earlier.len() as int] == session);
                assert(holds(rows[rows.len() - 1], server, window));
            }
            if exists|i: int|
                0 <= i < rows.len() && holds(#[trigger] rows[i], server, window)
                    && rows[i].link.identity.session == session {
                let i = choose|i: int|
                    0 <= i < rows.len() && holds(#[trigger] rows[i], server, window)
                        && rows[i].link.identity.session == session;
                if i < head.len() {
                    assert(holds(head[i], server, window));
                }
            }
            if holders(rows, server, window).contains(session) {
                let at = choose|at: int|
                    0 <= at < holders(rows, server, window).len() && holders(
                        rows,
                        server,
                        window,
                    )[at] == session;
                if at < earlier.len() {
                    assert(earlier[at] == session);
                }
            }
        }
    }
}

/// No session is listed twice among the holders of a window.
pub proof fn law_holders_are_distinct(
    rows: Seq<projection::WindowProjectionV>,
    server: Seq<u8>,
    window: u32,
)
    ensures
        holders(rows, server, window).no_duplicates(),
    decreases rows.len(),
{
    if rows.len() > 0 {
        law_holders_are_distinct(rows.drop_last(), server, window);
    }
}

/// The rendering of an edge's observations.
pub open spec fn link_rendering(link: projection::WindowLinkV) -> Seq<char> {
    text::struct_rendering(
        "WindowLink"@,
        seq![
            ("identity"@, target::link_rendering(link.identity)),
            ("window_active"@, text::bool_text(link.window_active)),
            ("window_activity_flag"@, text::bool_text(link.window_activity_flag)),
            ("window_bell_flag"@, text::bool_text(link.window_bell_flag)),
            ("window_end_flag"@, text::bool_text(link.window_end_flag)),
            ("window_flags"@, text::redacted_text(link.window_flags.len())),
            ("window_last_flag"@, text::bool_text(link.window_last_flag)),
            ("window_linked"@, text::bool_text(link.window_linked)),
            ("window_marked_flag"@, text::bool_text(link.window_marked_flag)),
            ("window_raw_flags"@, text::redacted_text(link.window_raw_flags.len())),
            ("window_silence_flag"@, text::bool_text(link.window_silence_flag)),
            ("window_stack_index"@, decimal::signed_decimal(link.window_stack_index as int)),
            ("window_start_flag"@, text::bool_text(link.window_start_flag)),
        ],
    )
}

/// The rendering of a window's row.
pub open spec fn window_rendering(row: projection::WindowProjectionV) -> Seq<char> {
    text::struct_rendering(
        "WindowProjection"@,
        seq![
            ("window"@, record::record_rendering("WindowInfo"@, row.window)),
            ("link"@, link_rendering(row.link)),
            ("window_active_clients"@, decimal::signed_decimal(row.window_active_clients as int)),
            ("window_active_clients_list"@, text::redacted_text(row.window_active_clients_list.len())),
            ("window_active_sessions"@, decimal::signed_decimal(row.window_active_sessions as int)),
            ("window_active_sessions_list"@, text::redacted_text(row.window_active_sessions_list.len())),
            ("window_linked_sessions"@, decimal::signed_decimal(row.window_linked_sessions as int)),
            ("window_linked_sessions_list"@, text::redacted_text(row.window_linked_sessions_list.len())),
        ],
    )
}

/// The rendering of a pane's row.
pub open spec fn pane_rendering(row: projection::PaneProjectionV) -> Seq<char> {
    text::struct_rendering(
        "PaneProjection"@,
        seq![
            ("pane"@, record::record_rendering("PaneInfo"@, row.pane)),
            ("link_identity"@, target::link_rendering(row.link_identity)),
        ],
    )
}

impl WindowLink {
    /// Render the edge without the place of the socket and the bytes of texts.
    pub fn debug_text(&self) -> (rendering: String)
        ensures
            rendering@ == link_rendering(self@),
    {
        let mut members: Vec<(&'static str, String)> = Vec::new();
        members.push(("identity", self.identity.debug_text()));
        members.push(("window_active", render_bool(self.window_active)));
        members.push(("window_activity_flag", render_bool(self.window_activity_flag)));
        members.push(("window_bell_flag", render_bool(self.window_bell_flag)));
        members.push(("window_end_flag", render_bool(self.window_end_flag)));
        members.push(("window_flags", self.window_flags.debug_text()));
        members.push(("window_last_flag", render_bool(self.window_last_flag)));
        members.push(("window_linked", render_bool(self.window_linked)));
        members.push(("window_marked_flag", render_bool(self.window_marked_flag)));
        members.push(("window_raw_flags", self.window_raw_flags.debug_text()));
        members.push(("window_silence_flag", render_bool(self.window_silence_flag)));
        members.push(("window_stack_index", format_unsigned(self.window_stack_index as u128)));
        members.push(("window_start_flag", render_bool(self.window_start_flag)));
        let ghost link = self@;
        assert(text::member_views(members@) =~= seq![
            ("identity"@, target::link_rendering(link.identity)),
            ("window_active"@, text::bool_text(link.window_active)),
            ("window_activity_flag"@, text::bool_text(link.window_activity_flag)),
            ("window_bell_flag"@, text::bool_text(link.window_bell_flag)),
            ("window_end_flag"@, text::bool_text(link.window_end_flag)),
            ("window_flags"@, text::redacted_text(link.window_flags.len())),
            ("window_last_flag"@, text::bool_text(link.window_last_flag)),
            ("window_linked"@, text::bool_text(link.window_linked)),
            ("window_marked_flag"@, text::bool_text(link.window_marked_flag)),
            ("window_raw_flags"@, text::redacted_text(link.window_raw_flags.len())),
            ("window_silence_flag"@, text::bool_text(link.window_silence_flag)),
            ("window_stack_index"@, decimal::signed_decimal(link.window_stack_index as int)),
            ("window_start_flag"@, text::bool_text(link.window_start_flag)),
        ]);
        render_struct("WindowLink", &members)
    }
}

impl WindowProjection {
    /// Render the row without the place of the socket and the bytes of texts.
    pub fn debug_text(&self) -> (rendering: String)
        ensures
            rendering@ == window_rendering(self@),
    {
        let mut members: Vec<(&'static str, String)> = Vec::new();
        members.push(("window", self.window.debug_text()));
        members.push(("link", self.link.debug_text()));
        members.push(("window_active_clients", format_unsigned(self.window_active_clients as u128)));
        members.push(("window_active_clients_list", self.window_active_clients_list.debug_text()));
        members.push(("window_active_sessions", format_unsigned(self.window_active_sessions as u128)));
        members.push(("window_active_sessions_list", self.window_active_sessions_list.debug_text()));
        members.push(("window_linked_sessions", format_unsigned(self.window_linked_sessions as u128)));
        members.push(("window_linked_sessions_list", self.window_linked_sessions_list.debug_text()));
        let ghost row = self@;
        assert(text::member_views(members@) =~= seq![
            ("window"@, record::record_rendering("WindowInfo"@, row.window)),
            ("link"@, link_rendering(row.link)),
            ("window_active_clients"@, decimal::signed_decimal(row.window_active_clients as int)),
            ("window_active_clients_list"@, text::redacted_text(row.window_active_clients_list.len())),
            ("window_active_sessions"@, decimal::signed_decimal(row.window_active_sessions as int)),
            ("window_active_sessions_list"@, text::redacted_text(row.window_active_sessions_list.len())),
            ("window_linked_sessions"@, decimal::signed_decimal(row.window_linked_sessions as int)),
            ("window_linked_sessions_list"@, text::redacted_text(row.window_linked_sessions_list.len())),
        ]);
        render_struct("WindowProjection", &members)
    }
}

impl PaneProjection {
    /// Render the row without the place of the socket and the bytes of texts.
    pub fn debug_text(&self) -> (rendering: String)
        ensures
            rendering@ == pane_rendering(self@),
    {
        let mut members: Vec<(&'static str, String)> = Vec::new();
        members.push(("pane", self.pane.debug_text()));
        members.push(("link_identity", self.link_identity.debug_text()));
        let ghost row = self@;
        assert(text::member_views(members@) =~= seq![
            ("pane"@, record::record_rendering("PaneInfo"@, row.pane)),
            ("link_identity"@, target::link_rendering(row.link_identity)),
        ]);
        render_struct("PaneProjection", &members)
    }
}

/// The rendering of an edge does not depend on where the socket is.
pub proof fn law_renderings_hide_sockets(link: target::LinkV, server: Seq<u8>)
    ensures
        target::link_rendering(link) == target::link_rendering(target::LinkV { server, ..link }),
{
}

/// The sessions that hold a window stand where their first edge to it stands,
/// each once: the positions of those edges, kept in order, give them.
pub proof fn law_holders_stand_where_their_first_edge_stands(
    rows: Seq<projection::WindowProjectionV>,
    server: Seq<u8>,
    window: u32,
)
    ensures
        holders(rows, server, window) == Seq::new(rows.len(), |i: int| i).filter(
            |i: int|
                rows[i].link.identity.server == server && rows[i].link.identity.window == window
                    && forall|j: int|
                    0 <= j < i && (#[trigger] rows[j]).link.identity.server == server
                        && rows[j].link.identity.window == window
                        ==> rows[j].link.identity.session != rows[i].link.identity.session,
        ).map_values(|i: int| rows[i].link.identity.session),
{
    lemma_first_edges(rows, server, window, rows.len() as int);
    assert(rows.take(rows.len() as int) =~= rows);
}

proof fn lemma_first_edges(
    rows: Seq<projection::WindowProjectionV>,
    server: Seq<u8>,
    window: u32,
    count: int,
)
    requires
        0 <= count <= rows.len(),
    ensures
        holders(rows.take(count), server, window) == Seq::new(count as nat, |i: int| i).filter(
            |i: int|
                rows[i].link.identity.server == server && rows[i].link.identity.window == window
                    && forall|j: int|
                    0 <= j < i && (#[trigger] rows[j]).link.identity.server == server
                        && rows[j].link.identity.window == window
                        ==> rows[j].link.identity.session != rows[i].link.identity.session,
        ).map_values(|i: int| rows[i].link.identity.session),
    decreases count,
{
    let first = |i: int|
        rows[i].link.identity.server == server && rows[i].link.identity.window == window
            && forall|j: int|
            0 <= j < i && (#[trigger] rows[j]).link.identity.server == server
                && rows[j].link.identity.window == window ==> rows[j].link.identity.session
                != rows[i].link.identity.session;
    let read = |i: int| rows[i].link.identity.session;
    let positions = Seq::new(count as nat, |i: int| i);
    text::lemma_kept_values(positions, first, read);
    if count > 0 {
        lemma_first_edges(rows, server, window, count - 1);
        let head = rows.take(count - 1);
        assert(positions.drop_last() =~= Seq::new((count - 1) as nat, |i: int| i));
        assert(rows.take(count).drop_last() =~= head);
        assert(rows.take(count).last() == rows[count - 1]);
        let session = rows[count - 1].link.identity.session;
        law_holders_are_the_sessions_with_an_edge(head, server, window, session);
        if holders(head, server, window).contains(session) {
            let at = choose|i: int|
                0 <= i < head.len() && holds(#[trigger] head[i], server, window)
                    && head[i].link.identity.session == session;
            assert(rows[at] == head[at]);
        } else {
            assert forall|j: int|
                0 <= j < count - 1 && (#[trigger] rows[j]).link.identity.server == server
                    && rows[j].link.identity.window == window implies rows[j].link.identity.session
                != session by {
                assert(holds(head[j], server, window));
            }
        }
    } else {
        assert(rows.take(0) =~= Seq::empty());
    }
}

/// No edge gives no choice, and edges of several sessions are refused. Edges of
/// one session give one of them.
pub proof fn law_edges_of_one_session_give_a_choice(
    candidates: Seq<projection::WindowProjectionV>,
)
    ensures
        candidates.len() == 0 <==> chosen(candidates) == Ok::<Option<int>, PointSelectionError>(
            None,
        ),
        chosen(candidates) is Err <==> exists|i: int, j: int|
            0 <= i < candidates.len() && 0 <= j < candidates.len() && (
            #[trigger] candidates[i]).link.identity.session != (
            #[trigger] candidates[j]).link.identity.session,
        chosen(candidates) matches Err(error) ==> error is MixedSession,
        chosen(candidates) matches Ok(Some(index)) ==> 0 <= index < candidates.len(),
{
    if candidates.len() > 0 && one_session(candidates) {
        law_the_choice_is_preferred(candidates, 0);
    }
    if candidates.len() > 0 && !one_session(candidates) {
        let i = choose|i: int|
            0 <= i < candidates.len() && (#[trigger] candidates[i]).link.identity.session
                != candidates[0].link.identity.session;
        assert(candidates[i].link.identity.session != candidates[0].link.identity.session);
    }
}

/// The renderings of rows show of their texts the length alone, and of their
/// server nothing.
pub proof fn law_renderings_of_rows_hide_texts(
    left: projection::WindowProjectionV,
    right: projection::WindowProjectionV,
)
    requires
        left.window == right.window,
        left.link == (projection::WindowLinkV {
            identity: target::LinkV { server: left.link.identity.server, ..right.link.identity },
            window_flags: left.link.window_flags,
            window_raw_flags: left.link.window_raw_flags,
            ..right.link
        }),
        left.link.window_flags.len() == right.link.window_flags.len(),
        left.link.window_raw_flags.len() == right.link.window_raw_flags.len(),
        left.window_active_clients == right.window_active_clients,
        left.window_active_sessions == right.window_active_sessions,
        left.window_linked_sessions == right.window_linked_sessions,
        left.window_active_clients_list.len() == right.window_active_clients_list.len(),
        left.window_active_sessions_list.len() == right.window_active_sessions_list.len(),
        left.window_linked_sessions_list.len() == right.window_linked_sessions_list.len(),
    ensures
        window_rendering(left) == window_rendering(right),
{
    law_renderings_hide_sockets(right.link.identity, left.link.identity.server);
    assert(link_rendering(left.link) == link_rendering(right.link));
}

} // verus!
