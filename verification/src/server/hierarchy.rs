//! The sessions of a server with everything under them.

use vstd::prelude::*;

use crate::formats::catalog::InfoPlacement;
use crate::pane;
use crate::pane::Pane;
use crate::query::error::FilterExpressionError;
use crate::query::error::FilterExpressionErrorKind;
use crate::query::fields::ManyRelation;
use crate::query::filterable::Filterable;
use crate::query::model;
use crate::query::private::many_relation;
use crate::query::private::Predicate;
use crate::query::round_trip;
use crate::query::schema;
use crate::query::schema::FilterFieldSchema;
use crate::query::schema::FilterSchema;
use crate::query::schema::FilterSchemaDescriptor;
use crate::query::schema::FilterValueSchema;
use crate::session;
use crate::session::Session;
use crate::snapshot::projection;
use crate::snapshot::record;
use crate::snapshot::record::describe;
use crate::snapshot::record::validate_field;
use crate::snapshot::session_info::SessionFields;
use crate::snapshot::window_info::WindowFields;
use crate::text::str_eq;
use crate::window;
use crate::window::Window;

verus! {

/// One session and everything under it.
pub struct SessionTree {
    /// The session.
    pub session: Session,
    /// Its windows, in tmux's order. A window linked into several sessions
    /// appears under each of them, as the listings report it.
    pub windows: Vec<WindowTree>,
}

/// One window and its panes.
pub struct WindowTree {
    /// The window, carrying the link it was reached through.
    pub window: Window,
    /// Its panes, in tmux's order.
    pub panes: Vec<Pane>,
}

/// One session and everything under it, in contracts.
#[verifier::ext_equal]
pub ghost struct SessionTreeV {
    pub session: session::SessionV,
    pub windows: Seq<WindowTreeV>,
}

/// One window and its panes, in contracts.
#[verifier::ext_equal]
pub ghost struct WindowTreeV {
    pub window: projection::WindowProjectionV,
    pub panes: Seq<projection::PaneProjectionV>,
}

impl WindowTree {
    /// The branch in contracts.
    pub open spec fn view(&self) -> WindowTreeV {
        WindowTreeV { window: self.window@, panes: pane::pane_views(self.panes@) }
    }
}

impl SessionTree {
    /// The branch in contracts.
    pub open spec fn view(&self) -> SessionTreeV {
        SessionTreeV { session: self.session@, windows: window_tree_views(self.windows@) }
    }
}

/// The window branches of a list in contracts.
pub open spec fn window_tree_views(trees: Seq<WindowTree>) -> Seq<WindowTreeV> {
    trees.map_values(|tree: WindowTree| tree@)
}

/// The session branches of a list in contracts.
pub open spec fn session_tree_views(trees: Seq<SessionTree>) -> Seq<SessionTreeV> {
    trees.map_values(|tree: SessionTree| tree@)
}

/// The branches that an expression accepts, in their order.
pub open spec fn accepted(trees: Seq<SessionTree>, expression: model::ExprV) -> Seq<SessionTreeV>
    decreases trees.len(),
{
    if trees.len() == 0 {
        Seq::empty()
    } else {
        let earlier = accepted(trees.drop_last(), expression);
        if model::accepts(expression, &trees.last()) {
            earlier.push(trees.last()@)
        } else {
            earlier
        }
    }
}

impl WindowTree {
    /// Copy the branch.
    pub fn copy(&self) -> (copy: WindowTree)
        ensures
            copy@ == self@,
    {
        let mut panes: Vec<Pane> = Vec::new();
        let mut index: usize = 0;
        while index < self.panes.len()
            invariant
                index <= self.panes@.len(),
                panes@.len() == index,
                forall|i: int| 0 <= i < index ==> (#[trigger] panes@[i])@ == self.panes@[i]@,
            decreases self.panes@.len() - index,
        {
            panes.push(self.panes[index].copy());
            index += 1;
        }
        assert(pane::pane_views(panes@) =~= pane::pane_views(self.panes@));
        WindowTree { window: self.window.copy(), panes }
    }
}

impl SessionTree {
    /// Copy the branch.
    pub fn copy(&self) -> (copy: SessionTree)
        ensures
            copy@ == self@,
    {
        let mut windows: Vec<WindowTree> = Vec::new();
        let mut index: usize = 0;
        while index < self.windows.len()
            invariant
                index <= self.windows@.len(),
                windows@.len() == index,
                forall|i: int| 0 <= i < index ==> (#[trigger] windows@[i])@ == self.windows@[i]@,
            decreases self.windows@.len() - index,
        {
            windows.push(self.windows[index].copy());
            index += 1;
        }
        assert(window_tree_views(windows@) =~= window_tree_views(self.windows@));
        SessionTree { session: self.session.copy(), windows }
    }
}

impl Clone for WindowTree {
    fn clone(&self) -> (copy: Self)
        ensures
            copy@ == self@,
    {
        self.copy()
    }
}

impl Clone for SessionTree {
    fn clone(&self) -> (copy: Self)
        ensures
            copy@ == self@,
    {
        self.copy()
    }
}

/// Whether a pane is among rows.
pub open spec fn pane_listed(rows: Seq<projection::PaneProjectionV>, number: u32) -> bool {
    exists|i: int| 0 <= i < rows.len() && pane::pane_number(#[trigger] rows[i]) == number
}

/// The panes of a window, each where its first row stands. A pane belongs to
/// one window however it was reached, so later rows of a pane are dropped.
pub open spec fn panes_in(
    rows: Seq<projection::PaneProjectionV>,
    window: u32,
) -> Seq<projection::PaneProjectionV>
    decreases rows.len(),
{
    if rows.len() == 0 {
        Seq::empty()
    } else {
        let earlier = rows.drop_last();
        let last = rows.last();
        if last.link_identity.window == window && !pane_listed(earlier, pane::pane_number(last)) {
            panes_in(earlier, window).push(last)
        } else {
            panes_in(earlier, window)
        }
    }
}

/// The windows of a session, with their panes. A window without a pane was
/// created between the listings and is dropped.
pub open spec fn windows_in(
    windows: Seq<projection::WindowProjectionV>,
    panes: Seq<projection::PaneProjectionV>,
    session: u32,
) -> Seq<WindowTreeV>
    decreases windows.len(),
{
    if windows.len() == 0 {
        Seq::empty()
    } else {
        let earlier = windows_in(windows.drop_last(), panes, session);
        let last = windows.last();
        let held = panes_in(panes, window::window_number(last));
        if last.link.identity.session == session && held.len() > 0 {
            earlier.push(WindowTreeV { window: last, panes: held })
        } else {
            earlier
        }
    }
}

/// Whether a session is among sessions.
pub open spec fn session_listed(sessions: Seq<session::SessionV>, number: u32) -> bool {
    exists|i: int|
        0 <= i < sessions.len() && session::session_number((#[trigger] sessions[i]).info) == number
}

/// The branch of a session. The windows go to the first session with the
/// identity.
pub open spec fn branch_of(
    earlier: Seq<session::SessionV>,
    session: session::SessionV,
    windows: Seq<projection::WindowProjectionV>,
    panes: Seq<projection::PaneProjectionV>,
) -> SessionTreeV {
    SessionTreeV {
        session,
        windows: if session_listed(earlier, session::session_number(session.info)) {
            Seq::empty()
        } else {
            windows_in(windows, panes, session::session_number(session.info))
        },
    }
}

/// The branches of sessions, in their order.
pub open spec fn branches(
    sessions: Seq<session::SessionV>,
    windows: Seq<projection::WindowProjectionV>,
    panes: Seq<projection::PaneProjectionV>,
) -> Seq<SessionTreeV>
    decreases sessions.len(),
{
    if sessions.len() == 0 {
        Seq::empty()
    } else {
        branches(sessions.drop_last(), windows, panes).push(
            branch_of(sessions.drop_last(), sessions.last(), windows, panes),
        )
    }
}

/// Report whether one of the first rows is of a pane.
fn is_pane_listed(panes: &Vec<Pane>, count: usize, number: u32) -> (listed: bool)
    requires
        count <= panes@.len(),
    ensures
        listed == pane_listed(pane::pane_views(panes@).take(count as int), number),
{
    let ghost rows = pane::pane_views(panes@).take(count as int);
    let mut index: usize = 0;
    while index < count
        invariant
            index <= count <= panes@.len(),
            rows == pane::pane_views(panes@).take(count as int),
            forall|i: int| 0 <= i < index ==> pane::pane_number(#[trigger] rows[i]) != number,
        decreases count - index,
    {
        assert(rows[index as int] == panes@[index as int]@);
        if panes[index].id().number() == number {
            assert(pane::pane_number(rows[index as int]) == number);
            return true;
        }
        index += 1;
    }
    false
}

/// Collect the panes of a window.
fn collect_panes(panes: &Vec<Pane>, window: u32) -> (held: Vec<Pane>)
    ensures
        pane::pane_views(held@) == panes_in(pane::pane_views(panes@), window),
{
    let ghost rows = pane::pane_views(panes@);
    let mut held: Vec<Pane> = Vec::new();
    let mut index: usize = 0;
    assert(rows.take(0) =~= Seq::empty());
    assert(pane::pane_views(held@) =~= Seq::empty());
    while index < panes.len()
        invariant
            index <= panes@.len(),
            rows == pane::pane_views(panes@),
            pane::pane_views(held@) == panes_in(rows.take(index as int), window),
        decreases panes@.len() - index,
    {
        let ghost longer = rows.take(index + 1);
        assert(longer.drop_last() =~= rows.take(index as int));
        assert(longer.last() == panes@[index as int]@);
        if panes[index].window_id().number() == window && !is_pane_listed(
            panes,
            index,
            panes[index].id().number(),
        ) {
            let ghost before = pane::pane_views(held@);
            let copy = panes[index].copy();
            held.push(copy);
            assert(pane::pane_views(held@) =~= before.push(copy@));
        }
        index += 1;
    }
    assert(rows.take(panes@.len() as int) =~= rows);
    held
}

/// Collect the windows of a session that have panes, with their panes.
fn collect_windows(windows: &Vec<Window>, panes: &Vec<Pane>, session: u32) -> (held: Vec<
    WindowTree,
>)
    ensures
        window_tree_views(held@) == windows_in(
            window::window_views(windows@),
            pane::pane_views(panes@),
            session,
        ),
{
    let ghost rows = window::window_views(windows@);
    let mut held: Vec<WindowTree> = Vec::new();
    let mut index: usize = 0;
    assert(rows.take(0) =~= Seq::empty());
    assert(window_tree_views(held@) =~= Seq::empty());
    while index < windows.len()
        invariant
            index <= windows@.len(),
            rows == window::window_views(windows@),
            window_tree_views(held@) == windows_in(
                rows.take(index as int),
                pane::pane_views(panes@),
                session,
            ),
        decreases windows@.len() - index,
    {
        let ghost longer = rows.take(index + 1);
        assert(longer.drop_last() =~= rows.take(index as int));
        assert(longer.last() == windows@[index as int]@);
        if windows[index].session_id().number() == session {
            let ghost before = window_tree_views(held@);
            let window = windows[index].copy();
            let panes = collect_panes(panes, window.id().number());
            if panes.len() > 0 {
                let tree = WindowTree { window, panes };
                held.push(tree);
                assert(window_tree_views(held@) =~= before.push(tree@));
            }
        }
        index += 1;
    }
    assert(rows.take(windows@.len() as int) =~= rows);
    held
}

/// Report whether one of the first sessions has an identity.
fn is_session_listed(sessions: &Vec<Session>, count: usize, number: u32) -> (listed: bool)
    requires
        count <= sessions@.len(),
    ensures
        listed == session_listed(session::session_views(sessions@).take(count as int), number),
{
    let ghost views = session::session_views(sessions@).take(count as int);
    let mut index: usize = 0;
    while index < count
        invariant
            index <= count <= sessions@.len(),
            views == session::session_views(sessions@).take(count as int),
            forall|i: int|
                0 <= i < index ==> session::session_number((#[trigger] views[i]).info) != number,
        decreases count - index,
    {
        assert(views[index as int] == sessions@[index as int]@);
        if sessions[index].id().number() == number {
            assert(session::session_number(views[index as int].info) == number);
            return true;
        }
        index += 1;
    }
    false
}

/// Stitch three listings together.
///
/// The listings are separate tmux commands. A window that was created between
/// them is in one listing and not in another, and is dropped rather than
/// reported half-formed: one without a pane row, one without a session, and the
/// panes of one without a window row.
pub fn stitch(sessions: &Vec<Session>, windows: &Vec<Window>, panes: &Vec<Pane>) -> (trees: Vec<
    SessionTree,
>)
    ensures
        session_tree_views(trees@) == branches(
            session::session_views(sessions@),
            window::window_views(windows@),
            pane::pane_views(panes@),
        ),
{
    let ghost views = session::session_views(sessions@);
    let mut trees: Vec<SessionTree> = Vec::new();
    let mut index: usize = 0;
    assert(views.take(0) =~= Seq::empty());
    assert(session_tree_views(trees@) =~= Seq::empty());
    while index < sessions.len()
        invariant
            index <= sessions@.len(),
            views == session::session_views(sessions@),
            session_tree_views(trees@) == branches(
                views.take(index as int),
                window::window_views(windows@),
                pane::pane_views(panes@),
            ),
        decreases sessions@.len() - index,
    {
        let ghost longer = views.take(index + 1);
        assert(longer.drop_last() =~= views.take(index as int));
        assert(longer.last() == sessions@[index as int]@);
        let session = sessions[index].copy();
        let number: u32 = session.id().number();
        let held = if is_session_listed(sessions, index, number) {
            let none: Vec<WindowTree> = Vec::new();
            assert(window_tree_views(none@) =~= Seq::empty());
            none
        } else {
            collect_windows(windows, panes, number)
        };
        let ghost before = session_tree_views(trees@);
        let tree = SessionTree { session, windows: held };
        trees.push(tree);
        assert(session_tree_views(trees@) =~= before.push(tree@));
        index += 1;
    }
    assert(views.take(sessions@.len() as int) =~= views);
    trees
}

/// Every session has one branch, in the order of the listing.
pub proof fn law_every_session_has_a_branch(
    sessions: Seq<session::SessionV>,
    windows: Seq<projection::WindowProjectionV>,
    panes: Seq<projection::PaneProjectionV>,
    index: int,
)
    requires
        0 <= index < sessions.len(),
    ensures
        branches(sessions, windows, panes).len() == sessions.len(),
        branches(sessions, windows, panes)[index] == branch_of(
            sessions.take(index),
            sessions[index],
            windows,
            panes,
        ),
    decreases sessions.len(),
{
    let head = sessions.drop_last();
    if index < head.len() {
        law_every_session_has_a_branch(head, windows, panes, index);
        assert(head.take(index) =~= sessions.take(index));
    } else {
        assert(sessions.take(index) =~= head);
        lemma_branch_count(head, windows, panes);
    }
}

proof fn lemma_branch_count(
    sessions: Seq<session::SessionV>,
    windows: Seq<projection::WindowProjectionV>,
    panes: Seq<projection::PaneProjectionV>,
)
    ensures
        branches(sessions, windows, panes).len() == sessions.len(),
    decreases sessions.len(),
{
    if sessions.len() > 0 {
        lemma_branch_count(sessions.drop_last(), windows, panes);
    }
}

/// A window stands under a session exactly where a row of the listing links
/// them and a row of the pane listing names it, and it holds the same panes
/// under every session.
pub proof fn law_windows_stand_under_their_sessions(
    windows: Seq<projection::WindowProjectionV>,
    panes: Seq<projection::PaneProjectionV>,
    session: u32,
    tree: WindowTreeV,
)
    ensures
        windows_in(windows, panes, session).contains(tree) <==> windows.contains(tree.window)
            && tree.window.link.identity.session == session && tree.panes == panes_in(
            panes,
            window::window_number(tree.window),
        ) && tree.panes.len() > 0,
    decreases windows.len(),
{
    if windows.len() > 0 {
        let head = windows.drop_last();
        let last = windows.last();
        law_windows_stand_under_their_sessions(head, panes, session, tree);
        let earlier = windows_in(head, panes, session);
        let all = windows_in(windows, panes, session);
        let row = WindowTreeV { window: last, panes: panes_in(panes, window::window_number(last)) };
        if earlier.contains(tree) {
            let at = choose|at: int| 0 <= at < earlier.len() && earlier[at] == tree;
            assert(all[at] == tree);
        }
        if head.contains(tree.window) {
            let at = choose|at: int| 0 <= at < head.len() && head[at] == tree.window;
            assert(windows[at] == tree.window);
        }
        assert(windows[windows.len() - 1] == last);
        if last.link.identity.session == session && row.panes.len() > 0 {
            assert(all[earlier.len() as int] == row);
            assert(windows_in(windows, panes, session) == earlier.push(row));
        }
        if all.contains(tree) {
            let at = choose|at: int| 0 <= at < all.len() && all[at] == tree;
            if at < earlier.len() {
                assert(earlier[at] == tree);
            }
        }
        if windows.contains(tree.window) {
            let at = choose|at: int| 0 <= at < windows.len() && windows[at] == tree.window;
            if at < head.len() {
                assert(head[at] == tree.window);
            }
        }
    } else {
        assert(windows_in(windows, panes, session) =~= Seq::empty());
    }
}

/// The windows of a session are the rows of the listing that link to it and
/// have a pane, each once and in the order of the listing, and each holds the
/// panes of its window.
pub proof fn law_windows_are_the_rows_of_their_session(
    windows: Seq<projection::WindowProjectionV>,
    panes: Seq<projection::PaneProjectionV>,
    session: u32,
)
    ensures
        ({
            let held = windows_in(windows, panes, session);
            let rows = windows.filter(
                |row: projection::WindowProjectionV|
                    row.link.identity.session == session && panes_in(
                        panes,
                        window::window_number(row),
                    ).len() > 0,
            );
            &&& held.len() == rows.len()
            &&& forall|i: int|
                0 <= i < held.len() ==> (#[trigger] held[i]).window == rows[i] && held[i].panes
                    == panes_in(panes, window::window_number(rows[i]))
        }),
    decreases windows.len(),
{
    reveal(Seq::filter);
    if windows.len() > 0 {
        law_windows_are_the_rows_of_their_session(windows.drop_last(), panes, session);
    }
}

/// The windows of a session link to it and have panes.
pub proof fn lemma_windows_are_of_their_session(
    windows: Seq<projection::WindowProjectionV>,
    panes: Seq<projection::PaneProjectionV>,
    session: u32,
)
    ensures
        forall|i: int|
            0 <= i < windows_in(windows, panes, session).len() ==> (#[trigger] windows_in(
                windows,
                panes,
                session,
            )[i]).window.link.identity.session == session && windows_in(
                windows,
                panes,
                session,
            )[i].panes.len() > 0,
    decreases windows.len(),
{
    if windows.len() > 0 {
        lemma_windows_are_of_their_session(windows.drop_last(), panes, session);
    }
}

/// The panes of a window are the rows that name the window and no pane that an
/// earlier row names, each once and in the order of the listing: the positions
/// of those rows, kept in order, are the positions of what is held.
pub proof fn law_panes_are_the_first_rows_of_their_window(
    rows: Seq<projection::PaneProjectionV>,
    window: u32,
)
    ensures
        panes_in(rows, window) == Seq::new(rows.len(), |i: int| i).filter(
            |i: int|
                rows[i].link_identity.window == window && forall|j: int|
                    0 <= j < i ==> pane::pane_number(#[trigger] rows[j]) != pane::pane_number(
                        rows[i],
                    ),
        ).map_values(|i: int| rows[i]),
{
    lemma_first_rows(rows, window, rows.len() as int);
    assert(rows.take(rows.len() as int) =~= rows);
}

proof fn lemma_first_rows(rows: Seq<projection::PaneProjectionV>, window: u32, count: int)
    requires
        0 <= count <= rows.len(),
    ensures
        panes_in(rows.take(count), window) == Seq::new(count as nat, |i: int| i).filter(
            |i: int|
                rows[i].link_identity.window == window && forall|j: int|
                    0 <= j < i ==> pane::pane_number(#[trigger] rows[j]) != pane::pane_number(
                        rows[i],
                    ),
        ).map_values(|i: int| rows[i]),
    decreases count,
{
    reveal(Seq::filter);
    let first = |i: int|
        rows[i].link_identity.window == window && forall|j: int|
            0 <= j < i ==> pane::pane_number(#[trigger] rows[j]) != pane::pane_number(rows[i]);
    let positions = Seq::new(count as nat, |i: int| i);
    if count > 0 {
        lemma_first_rows(rows, window, count - 1);
        let head = Seq::new((count - 1) as nat, |i: int| i);
        assert(positions.drop_last() =~= head);
        assert(positions.last() == count - 1);
        let longer = rows.take(count);
        assert(longer.drop_last() =~= rows.take(count - 1));
        assert(longer.last() == rows[count - 1]);
        let number = pane::pane_number(rows[count - 1]);
        if pane_listed(rows.take(count - 1), number) {
            let at = choose|at: int|
                0 <= at < count - 1 && pane::pane_number(#[trigger] rows.take(count - 1)[at])
                    == number;
            assert(pane::pane_number(rows[at]) == number);
        } else {
            assert forall|j: int| 0 <= j < count - 1 implies pane::pane_number(#[trigger] rows[j])
                != number by {
                assert(rows.take(count - 1)[j] == rows[j]);
            }
        }
        assert(positions.filter(first).map_values(|i: int| rows[i]) =~= if first(count - 1) {
            head.filter(first).map_values(|i: int| rows[i]).push(rows[count - 1])
        } else {
            head.filter(first).map_values(|i: int| rows[i])
        });
    } else {
        assert(rows.take(0) =~= Seq::empty());
        assert(panes_in(rows.take(0), window) =~= Seq::empty());
        assert(positions.filter(first).map_values(|i: int| rows[i]) =~= Seq::empty());
    }
}

/// Every session has one branch, in the order of the listing. The first session
/// with an identity holds the windows that link to it, and one that repeats an
/// identity holds none.
pub proof fn law_branches_follow_the_sessions(
    sessions: Seq<session::SessionV>,
    windows: Seq<projection::WindowProjectionV>,
    panes: Seq<projection::PaneProjectionV>,
    index: int,
)
    requires
        0 <= index < sessions.len(),
    ensures
        ({
            let trees = branches(sessions, windows, panes);
            let number = session::session_number(sessions[index].info);
            &&& trees.len() == sessions.len()
            &&& trees[index].session == sessions[index]
            &&& (forall|j: int|
                0 <= j < index ==> session::session_number((#[trigger] sessions[j]).info)
                    != number) ==> trees[index].windows == windows_in(windows, panes, number)
            &&& (exists|j: int|
                0 <= j < index && session::session_number((#[trigger] sessions[j]).info) == number)
                ==> trees[index].windows.len() == 0
        }),
{
    law_every_session_has_a_branch(sessions, windows, panes, index);
    let number = session::session_number(sessions[index].info);
    let earlier = sessions.take(index);
    assert forall|j: int| 0 <= j < index implies #[trigger] earlier[j] == sessions[j] by {}
    if session_listed(earlier, number) {
        let at = choose|at: int|
            0 <= at < earlier.len() && session::session_number((#[trigger] earlier[at]).info)
                == number;
        assert(session::session_number(sessions[at].info) == number);
    }
    if exists|j: int|
        0 <= j < index && session::session_number((#[trigger] sessions[j]).info) == number {
        let at = choose|j: int|
            0 <= j < index && session::session_number((#[trigger] sessions[j]).info) == number;
        assert(session::session_number(earlier[at].info) == number);
    }
}

/// The branches that an expression accepts are those of the list that match it,
/// each once and in the order of the list.
pub proof fn law_accepted_branches_are_filtered(trees: Seq<SessionTree>, expression: model::ExprV)
    ensures
        accepted(trees, expression) == session_tree_views(
            trees.filter(|tree: SessionTree| model::accepts(expression, &tree)),
        ),
    decreases trees.len(),
{
    reveal(Seq::filter);
    let test = |tree: SessionTree| model::accepts(expression, &tree);
    if trees.len() > 0 {
        law_accepted_branches_are_filtered(trees.drop_last(), expression);
        assert(session_tree_views(trees.filter(test)) =~= if test(trees.last()) {
            session_tree_views(trees.drop_last().filter(test)).push(trees.last()@)
        } else {
            session_tree_views(trees.drop_last().filter(test))
        });
    } else {
        assert(session_tree_views(trees.filter(test)) =~= Seq::empty());
    }
}

/// The first row of a pane.
pub open spec fn first_row(rows: Seq<projection::PaneProjectionV>, index: int) -> bool {
    !pane_listed(rows.take(index), pane::pane_number(rows[index]))
}

/// A pane stands under a window exactly where its first row says so.
pub proof fn law_panes_stand_where_their_first_row_says(
    rows: Seq<projection::PaneProjectionV>,
    window: u32,
    row: projection::PaneProjectionV,
)
    ensures
        panes_in(rows, window).contains(row) <==> exists|i: int|
            0 <= i < rows.len() && #[trigger] rows[i] == row && row.link_identity.window == window
                && first_row(rows, i),
    decreases rows.len(),
{
    if rows.len() > 0 {
        let head = rows.drop_last();
        let last = rows.last();
        law_panes_stand_where_their_first_row_says(head, window, row);
        let earlier = panes_in(head, window);
        let all = panes_in(rows, window);
        let kept = last.link_identity.window == window && !pane_listed(
            head,
            pane::pane_number(last),
        );
        assert(rows.take(rows.len() - 1) =~= head);
        assert(rows[rows.len() - 1] == last);
        if earlier.contains(row) {
            let at = choose|at: int| 0 <= at < earlier.len() && earlier[at] == row;
            assert(all[at] == row);
            let i = choose|i: int|
                0 <= i < head.len() && #[trigger] head[i] == row && row.link_identity.window
                    == window && first_row(head, i);
            assert(rows[i] == row);
            assert(head.take(i) =~= rows.take(i));
        }
        if kept {
            assert(all[earlier.len() as int] == last);
        }
        if all.contains(row) {
            let at = choose|at: int| 0 <= at < all.len() && all[at] == row;
            if at < earlier.len() {
                assert(earlier[at] == row);
            } else {
                assert(first_row(rows, rows.len() - 1));
            }
        }
        if exists|i: int|
            0 <= i < rows.len() && #[trigger] rows[i] == row && row.link_identity.window == window
                && first_row(rows, i) {
            let i = choose|i: int|
                0 <= i < rows.len() && #[trigger] rows[i] == row && row.link_identity.window
                    == window && first_row(rows, i);
            if i < head.len() {
                assert(head[i] == row);
                assert(head.take(i) =~= rows.take(i));
                assert(first_row(head, i));
            }
        }
    } else {
        assert(panes_in(rows, window) =~= Seq::empty());
    }
}

/// No window holds a pane twice, and no two windows hold the same pane.
pub proof fn law_panes_stand_under_one_window(
    rows: Seq<projection::PaneProjectionV>,
    one: u32,
    other: u32,
    left: int,
    right: int,
)
    requires
        0 <= left < panes_in(rows, one).len(),
        0 <= right < panes_in(rows, other).len(),
        pane::pane_number(panes_in(rows, one)[left]) == pane::pane_number(
            panes_in(rows, other)[right],
        ),
    ensures
        one == other,
        left == right,
    decreases rows.len(),
{
    if rows.len() > 0 {
        let head = rows.drop_last();
        let last = rows.last();
        lemma_panes_are_listed(head, one);
        lemma_panes_are_listed(head, other);
        let ones = panes_in(head, one);
        let others = panes_in(head, other);
        if left < ones.len() && right < others.len() {
            law_panes_stand_under_one_window(head, one, other, left, right);
        } else if left < ones.len() {
            assert(pane_listed(head, pane::pane_number(ones[left])));
        } else if right < others.len() {
            assert(pane_listed(head, pane::pane_number(others[right])));
        }
    }
}

proof fn lemma_panes_are_listed(rows: Seq<projection::PaneProjectionV>, window: u32)
    ensures
        forall|i: int|
            0 <= i < panes_in(rows, window).len() ==> pane_listed(
                rows,
                pane::pane_number(#[trigger] panes_in(rows, window)[i]),
            ),
    decreases rows.len(),
{
    if rows.len() > 0 {
        let head = rows.drop_last();
        lemma_panes_are_listed(head, window);
        let held = panes_in(rows, window);
        assert forall|i: int| 0 <= i < held.len() implies pane_listed(
            rows,
            pane::pane_number(#[trigger] held[i]),
        ) by {
            if i < panes_in(head, window).len() {
                assert(held[i] == panes_in(head, window)[i]);
                let number = pane::pane_number(held[i]);
                assert(pane_listed(head, number));
                let at = choose|at: int|
                    0 <= at < head.len() && pane::pane_number(#[trigger] head[at]) == number;
                assert(pane::pane_number(rows[at]) == number);
            } else {
                assert(pane::pane_number(rows[rows.len() - 1]) == pane::pane_number(held[i]));
            }
        }
    }
}

/// Typed filter handles for [`SessionTree`].
///
/// The session's own fields sit under `session`, and `windows` is the relation
/// that makes a question about a session's contents expressible.
pub struct SessionTreeFields {
    /// The session's own fields, the same set [`Session`] filters on.
    pub session: SessionFields<SessionTree>,
    /// The windows under the session.
    pub windows: ManyRelation<SessionTree, WindowTree>,
}

/// Typed filter handles for [`WindowTree`].
pub struct WindowTreeFields {
    /// The window's own fields, the same set [`Window`] filters on.
    pub window: WindowFields<WindowTree>,
    /// The panes in the window.
    pub panes: ManyRelation<WindowTree, Pane>,
}

impl SessionTreeFields {
    /// Render which set of handles is being held.
    pub fn debug_text(&self) -> (rendering: String)
        ensures
            rendering@ == "SessionTreeFields { .. }"@,
    {
        "SessionTreeFields { .. }".to_owned()
    }
}

impl WindowTreeFields {
    /// Render which set of handles is being held.
    pub fn debug_text(&self) -> (rendering: String)
        ensures
            rendering@ == "WindowTreeFields { .. }"@,
    {
        "WindowTreeFields { .. }".to_owned()
    }
}

/// Filtering a hierarchy branch reaches the session's fields and its windows.
impl Filterable for SessionTree {
    type Fields = SessionTreeFields;

    open spec fn target_name() -> Seq<char> {
        "session_tree"@
    }

    open spec fn passes(&self, predicate: model::PredicateV) -> bool {
        if predicate.field == "windows"@ {
            model::many_pass(predicate.data, self.windows@)
        } else {
            record::record_passes(self.session@.info, predicate)
        }
    }

    open spec fn checked(field: Seq<char>, data: model::DataV) -> (
        Option<FilterExpressionErrorKind>,
        model::DataV,
    ) {
        if field == "windows"@ {
            model::validated_many::<WindowTree>(data)
        } else {
            record::checked_field(InfoPlacement::SessionInfo, field, data)
        }
    }

    fn filter_target() -> (target: &'static str) {
        "session_tree"
    }

    fn filter_fields() -> (fields: Self::Fields)
        ensures
            fields.session.are_of("session_tree"@),
            fields.windows.id().names("session_tree"@, "windows"@),
    {
        SessionTreeFields {
            session: SessionFields::for_target("session_tree"),
            windows: many_relation("session_tree", "windows"),
        }
    }

    fn filter_matches(&self, predicate: &Predicate) -> (passes: bool) {
        assert(self.passes(predicate@) == if predicate@.field == "windows"@ {
            model::many_pass(predicate@.data, self.windows@)
        } else {
            self.session.passes(predicate@)
        });
        if str_eq(predicate.field(), "windows") {
            predicate.matches_many(self.windows.as_slice())
        } else {
            self.session.filter_matches(predicate)
        }
    }

    fn filter_validate(predicate: &mut Predicate) -> (result: Result<(), FilterExpressionError>) {
        if str_eq(predicate.field(), "windows") {
            predicate.validate_many::<WindowTree>()
        } else {
            validate_field(InfoPlacement::SessionInfo, predicate)
        }
    }

    proof fn lemma_settles_again(field: Seq<char>, data: model::DataV) {
        if field == "windows"@ {
            round_trip::lemma_many_settles_again::<WindowTree>(data);
        } else {
            record::lemma_field_settles_again(InfoPlacement::SessionInfo, field, data);
        }
    }

    proof fn lemma_passes_alike(&self, left: model::PredicateV, right: model::PredicateV) {
        if left.field == "windows"@ {
            round_trip::lemma_many_alike(left, right, self.windows@);
        } else {
            record::lemma_record_passes_alike(self.session@.info, left, right);
        }
    }

    proof fn lemma_settling_keeps_answers(
        &self,
        predicate: model::PredicateV,
        target: Option<Seq<char>>,
    ) {
        if predicate.field == "windows"@ {
            round_trip::lemma_settling_many_keeps_answers(predicate.data, self.windows@);
        } else {
            record::lemma_known_literals_are_settled(
                InfoPlacement::SessionInfo,
                predicate.field,
                predicate.data,
            );
        }
    }
}

/// Filtering a window branch reaches the window's fields and its panes.
impl Filterable for WindowTree {
    type Fields = WindowTreeFields;

    open spec fn target_name() -> Seq<char> {
        "window_tree"@
    }

    open spec fn passes(&self, predicate: model::PredicateV) -> bool {
        if predicate.field == "panes"@ {
            model::many_pass(predicate.data, self.panes@)
        } else {
            record::record_passes(self.window@.window, predicate)
        }
    }

    open spec fn checked(field: Seq<char>, data: model::DataV) -> (
        Option<FilterExpressionErrorKind>,
        model::DataV,
    ) {
        if field == "panes"@ {
            model::validated_many::<Pane>(data)
        } else {
            record::checked_field(InfoPlacement::WindowInfo, field, data)
        }
    }

    fn filter_target() -> (target: &'static str) {
        "window_tree"
    }

    fn filter_fields() -> (fields: Self::Fields)
        ensures
            fields.window.are_of("window_tree"@),
            fields.panes.id().names("window_tree"@, "panes"@),
    {
        WindowTreeFields {
            window: WindowFields::for_target("window_tree"),
            panes: many_relation("window_tree", "panes"),
        }
    }

    fn filter_matches(&self, predicate: &Predicate) -> (passes: bool) {
        assert(self.passes(predicate@) == if predicate@.field == "panes"@ {
            model::many_pass(predicate@.data, self.panes@)
        } else {
            self.window.passes(predicate@)
        });
        if str_eq(predicate.field(), "panes") {
            predicate.matches_many(self.panes.as_slice())
        } else {
            self.window.filter_matches(predicate)
        }
    }

    fn filter_validate(predicate: &mut Predicate) -> (result: Result<(), FilterExpressionError>) {
        if str_eq(predicate.field(), "panes") {
            predicate.validate_many::<Pane>()
        } else {
            validate_field(InfoPlacement::WindowInfo, predicate)
        }
    }

    proof fn lemma_settles_again(field: Seq<char>, data: model::DataV) {
        if field == "panes"@ {
            round_trip::lemma_many_settles_again::<Pane>(data);
        } else {
            record::lemma_field_settles_again(InfoPlacement::WindowInfo, field, data);
        }
    }

    proof fn lemma_passes_alike(&self, left: model::PredicateV, right: model::PredicateV) {
        if left.field == "panes"@ {
            round_trip::lemma_many_alike(left, right, self.panes@);
        } else {
            record::lemma_record_passes_alike(self.window@.window, left, right);
        }
    }

    proof fn lemma_settling_keeps_answers(
        &self,
        predicate: model::PredicateV,
        target: Option<Seq<char>>,
    ) {
        if predicate.field == "panes"@ {
            round_trip::lemma_settling_many_keeps_answers(predicate.data, self.panes@);
        } else {
            record::lemma_known_literals_are_settled(
                InfoPlacement::WindowInfo,
                predicate.field,
                predicate.data,
            );
        }
    }
}

/// A grammar with one more field, a relation to the target at a position of the
/// catalog.
pub open spec fn related(
    descriptor: schema::DescriptorV,
    name: Seq<char>,
    position: int,
) -> schema::DescriptorV {
    schema::DescriptorV {
        target: descriptor.target,
        fields: descriptor.fields.push(
            schema::FieldV { name, kind: schema::FamilyV::Many(position) },
        ),
    }
}

impl FilterSchema for SessionTree {
    open spec fn described() -> Seq<schema::DescriptorV> {
        seq![
            related(record::described(InfoPlacement::SessionInfo, "session_tree"@), "windows"@, 1),
            related(record::described(InfoPlacement::WindowInfo, "window_tree"@), "panes"@, 2),
            record::described(InfoPlacement::PaneInfo, "pane"@),
        ]
    }

    fn describe() -> (catalog: Vec<FilterSchemaDescriptor>) {
        let mut catalog: Vec<FilterSchemaDescriptor> = Vec::new();
        catalog.push(
            describe(InfoPlacement::SessionInfo, "session").retarget("session_tree").with_field(
                FilterFieldSchema::new("windows", FilterValueSchema::Many(1)),
            ),
        );
        catalog.push(
            describe(InfoPlacement::WindowInfo, "window").retarget("window_tree").with_field(
                FilterFieldSchema::new("panes", FilterValueSchema::Many(2)),
            ),
        );
        catalog.push(describe(InfoPlacement::PaneInfo, "pane"));
        assert(schema::catalog_views(catalog@) =~= Self::described());
        proof {
            lemma_session_tree_is_closed();
        }
        catalog
    }
}

impl FilterSchema for WindowTree {
    open spec fn described() -> Seq<schema::DescriptorV> {
        seq![
            related(record::described(InfoPlacement::WindowInfo, "window_tree"@), "panes"@, 1),
            record::described(InfoPlacement::PaneInfo, "pane"@),
        ]
    }

    fn describe() -> (catalog: Vec<FilterSchemaDescriptor>) {
        let mut catalog: Vec<FilterSchemaDescriptor> = Vec::new();
        catalog.push(
            describe(InfoPlacement::WindowInfo, "window").retarget("window_tree").with_field(
                FilterFieldSchema::new("panes", FilterValueSchema::Many(1)),
            ),
        );
        catalog.push(describe(InfoPlacement::PaneInfo, "pane"));
        assert(schema::catalog_views(catalog@) =~= Self::described());
        proof {
            lemma_window_tree_is_closed();
        }
        catalog
    }
}

proof fn lemma_session_tree_is_closed()
    ensures
        schema::closed_catalog(SessionTree::described()),
{
    let catalog = SessionTree::described();
    assert forall|i: int, j: int|
        0 <= i < catalog.len() && 0 <= j < catalog[i].fields.len() implies match (
    #[trigger] catalog[i].fields[j]).kind {
        schema::FamilyV::Many(related) => 0 <= related < catalog.len(),
        schema::FamilyV::One(related) => 0 <= related < catalog.len(),
        _ => true,
    } by {
        let of = if i == 0 {
            InfoPlacement::SessionInfo
        } else if i == 1 {
            InfoPlacement::WindowInfo
        } else {
            InfoPlacement::PaneInfo
        };
        if j < of.count() {
            assert(catalog[i].fields[j].kind == record::family(of.field(j).decoded_by()));
        }
    }
}

proof fn lemma_window_tree_is_closed()
    ensures
        schema::closed_catalog(WindowTree::described()),
{
    let catalog = WindowTree::described();
    assert forall|i: int, j: int|
        0 <= i < catalog.len() && 0 <= j < catalog[i].fields.len() implies match (
    #[trigger] catalog[i].fields[j]).kind {
        schema::FamilyV::Many(related) => 0 <= related < catalog.len(),
        schema::FamilyV::One(related) => 0 <= related < catalog.len(),
        _ => true,
    } by {
        let of = if i == 0 {
            InfoPlacement::WindowInfo
        } else {
            InfoPlacement::PaneInfo
        };
        if j < of.count() {
            assert(catalog[i].fields[j].kind == record::family(of.field(j).decoded_by()));
        }
    }
}

/// A branch of a session passes a test on its windows by the branches of its
/// windows, and any other test as its session does. A branch of a window passes
/// one on its panes by its panes, and any other as its window does.
pub proof fn law_branches_pass_by_what_they_hold(
    session: SessionTree,
    window: WindowTree,
    predicate: model::PredicateV,
)
    ensures
        predicate.field == "windows"@ ==> (session.passes(predicate) <==> model::many_pass(
            predicate.data,
            session.windows@,
        )),
        predicate.field != "windows"@ ==> (session.passes(predicate) <==> session.session.passes(
            predicate,
        )),
        predicate.field == "panes"@ ==> (window.passes(predicate) <==> model::many_pass(
            predicate.data,
            window.panes@,
        )),
        predicate.field != "panes"@ ==> (window.passes(predicate) <==> window.window.passes(
            predicate,
        )),
        SessionTree::target_name() == "session_tree"@,
        WindowTree::target_name() == "window_tree"@,
{
}

/// A test on a branch is checked in the same way: one on its relation against
/// what it leads to, and any other against the object's own fields.
pub proof fn law_branches_check_what_they_hold(field: Seq<char>, data: model::DataV)
    ensures
        field == "windows"@ ==> SessionTree::checked(field, data) == model::validated_many::<
            WindowTree,
        >(data),
        field != "windows"@ ==> SessionTree::checked(field, data) == Session::checked(field, data),
        field == "panes"@ ==> WindowTree::checked(field, data) == model::validated_many::<Pane>(
            data,
        ),
        field != "panes"@ ==> WindowTree::checked(field, data) == Window::checked(field, data),
{
}

/// The grammar of a branch has the fields of its object and behind them the
/// relation, which leads to the grammar of what it holds.
pub proof fn law_branches_describe_their_relations()
    ensures
        ({
            let catalog = SessionTree::described();
            let sessions = record::described(InfoPlacement::SessionInfo, "session_tree"@);
            let windows = record::described(InfoPlacement::WindowInfo, "window_tree"@);
            &&& catalog.len() == 3
            &&& catalog[0].target == "session_tree"@ && catalog[1].target == "window_tree"@
                && catalog[2].target == "pane"@
            &&& catalog[0].fields.drop_last() == sessions.fields
            &&& catalog[0].fields.last() == (schema::FieldV {
                name: "windows"@,
                kind: schema::FamilyV::Many(1),
            })
            &&& catalog[1].fields.drop_last() == windows.fields
            &&& catalog[1].fields.last() == (schema::FieldV {
                name: "panes"@,
                kind: schema::FamilyV::Many(2),
            })
            &&& catalog[2] == record::described(InfoPlacement::PaneInfo, "pane"@)
            &&& WindowTree::described().len() == 2
            &&& WindowTree::described()[0].target == "window_tree"@
            &&& WindowTree::described()[0].fields.drop_last() == windows.fields
            &&& WindowTree::described()[0].fields.last() == (schema::FieldV {
                name: "panes"@,
                kind: schema::FamilyV::Many(1),
            })
            &&& WindowTree::described()[1] == catalog[2]
        }),
{
    let catalog = SessionTree::described();
    let sessions = record::described(InfoPlacement::SessionInfo, "session_tree"@);
    let windows = record::described(InfoPlacement::WindowInfo, "window_tree"@);
    assert(catalog[0].fields.drop_last() =~= sessions.fields);
    assert(catalog[1].fields.drop_last() =~= windows.fields);
    assert(WindowTree::described()[0].fields.drop_last() =~= windows.fields);
}

} // verus!
