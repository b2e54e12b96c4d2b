//! The identities that tmux objects are addressed by.

use vstd::prelude::*;
use vstd::string::*;
use vstd::utf8::*;

use crate::decimal;
use crate::decimal::format_signed;
use crate::decimal::format_unsigned;
use crate::decimal::parse_digits;
use crate::text;
use crate::text::copy_bytes;
use crate::text::render_struct;

verus! {

/// The number that an identity's spelling denotes: a sigil, and then digits of
/// a number that fits an identity. Leading zeros are accepted.
pub open spec fn id_number(sigil: u8, bytes: Seq<u8>) -> Option<u32> {
    if bytes.len() > 0 && bytes[0] == sigil && decimal::digits(bytes.skip(1)) && decimal::digits_value(
        bytes.skip(1),
    ) <= u32::MAX {
        Some(decimal::digits_value(bytes.skip(1)) as u32)
    } else {
        None
    }
}

/// Read the number of an identity.
pub fn parse_id(sigil: u8, bytes: &[u8]) -> (number: Option<u32>)
    ensures
        number == id_number(sigil, bytes@),
{
    if bytes.len() < 1 || bytes[0] != sigil {
        return None;
    }
    match parse_digits(bytes, 1, u32::MAX as u64) {
        Some(number) => Some(number as u32),
        None => None,
    }
}

/// A session's identity: a dollar sign and a number.
#[derive(Clone, Copy, Debug, PartialEq, Eq, Structural, Hash)]
pub struct SessionId {
    number: u32,
}

impl SessionId {
    /// The number in contracts.
    pub closed spec fn view(&self) -> u32 {
        self.number
    }

    /// The identity with a number.
    pub fn new(number: u32) -> (id: SessionId)
        ensures
            id@ == number,
    {
        SessionId { number }
    }

    /// Read an identity from its spelling.
    pub fn parse(bytes: &[u8]) -> (id: Option<SessionId>)
        ensures
            match id {
                Some(id) => id_number(36, bytes@) == Some(id@),
                None => id_number(36, bytes@) is None,
            },
    {
        match parse_id(36, bytes) {
            Some(number) => Some(SessionId { number }),
            None => None,
        }
    }

    /// The number.
    pub fn number(&self) -> (number: u32)
        ensures
            number == self@,
    {
        self.number
    }

    /// The canonical spelling.
    pub fn text(&self) -> (text: String)
        ensures
            text@ == id_text('$', self@),
    {
        let mut text = "$".to_owned();
        proof {
            reveal_strlit("$");
            assert("$"@ =~= seq!['$']);
        }
        text.append(format_unsigned(self.number as u128).as_str());
        text
    }

    /// Report whether two identities are one.
    pub fn same(&self, other: &SessionId) -> (same: bool)
        ensures
            same == (self@ == other@),
    {
        self.number == other.number
    }
}

/// Identities with one number are one identity.
pub proof fn lemma_session_id_is_its_number(left: SessionId, right: SessionId)
    ensures
        left@ == right@ <==> left == right,
{
}

/// A window's identity: an at sign and a number.
#[derive(Clone, Copy, Debug, PartialEq, Eq, Structural, Hash)]
pub struct WindowId {
    number: u32,
}

impl WindowId {
    /// The number in contracts.
    pub closed spec fn view(&self) -> u32 {
        self.number
    }

    /// The identity with a number.
    pub fn new(number: u32) -> (id: WindowId)
        ensures
            id@ == number,
    {
        WindowId { number }
    }

    /// Read an identity from its spelling.
    pub fn parse(bytes: &[u8]) -> (id: Option<WindowId>)
        ensures
            match id {
                Some(id) => id_number(64, bytes@) == Some(id@),
                None => id_number(64, bytes@) is None,
            },
    {
        match parse_id(64, bytes) {
            Some(number) => Some(WindowId { number }),
            None => None,
        }
    }

    /// The number.
    pub fn number(&self) -> (number: u32)
        ensures
            number == self@,
    {
        self.number
    }

    /// The canonical spelling.
    pub fn text(&self) -> (text: String)
        ensures
            text@ == id_text('@', self@),
    {
        let mut text = "@".to_owned();
        proof {
            reveal_strlit("@");
            assert("@"@ =~= seq!['@']);
        }
        text.append(format_unsigned(self.number as u128).as_str());
        text
    }

    /// Report whether two identities are one.
    pub fn same(&self, other: &WindowId) -> (same: bool)
        ensures
            same == (self@ == other@),
    {
        self.number == other.number
    }
}

/// Identities with one number are one identity.
pub proof fn lemma_window_id_is_its_number(left: WindowId, right: WindowId)
    ensures
        left@ == right@ <==> left == right,
{
}

/// A pane's identity: a percent sign and a number.
#[derive(Clone, Copy, Debug, PartialEq, Eq, Structural, Hash)]
pub struct PaneId {
    number: u32,
}

impl PaneId {
    /// The number in contracts.
    pub closed spec fn view(&self) -> u32 {
        self.number
    }

    /// The identity with a number.
    pub fn new(number: u32) -> (id: PaneId)
        ensures
            id@ == number,
    {
        PaneId { number }
    }

    /// Read an identity from its spelling.
    pub fn parse(bytes: &[u8]) -> (id: Option<PaneId>)
        ensures
            match id {
                Some(id) => id_number(37, bytes@) == Some(id@),
                None => id_number(37, bytes@) is None,
            },
    {
        match parse_id(37, bytes) {
            Some(number) => Some(PaneId { number }),
            None => None,
        }
    }

    /// The number.
    pub fn number(&self) -> (number: u32)
        ensures
            number == self@,
    {
        self.number
    }

    /// The canonical spelling.
    pub fn text(&self) -> (text: String)
        ensures
            text@ == id_text('%', self@),
    {
        let mut text = "%".to_owned();
        proof {
            reveal_strlit("%");
            assert("%"@ =~= seq!['%']);
        }
        text.append(format_unsigned(self.number as u128).as_str());
        text
    }

    /// Report whether two identities are one.
    pub fn same(&self, other: &PaneId) -> (same: bool)
        ensures
            same == (self@ == other@),
    {
        self.number == other.number
    }
}

/// The canonical spelling of an identity.
pub open spec fn id_text(sigil: char, number: u32) -> Seq<char> {
    seq![sigil] + decimal::decimal(number as nat)
}

/// The canonical spelling of an identity reads as the identity.
pub proof fn law_identity_spellings_round_trip(sigil: char, number: u32)
    requires
        sigil == '$' || sigil == '@' || sigil == '%',
    ensures
        id_number(sigil as u8, encode_utf8(id_text(sigil, number))) == Some(number),
{
    let spelling = id_text(sigil, number);
    let notation = decimal::decimal(number as nat);
    decimal::lemma_signed_decimal_is_ascii(number as int);
    assert(decimal::signed_decimal(number as int) == notation);
    assert forall|i: int| 0 <= i < spelling.len() implies (#[trigger] spelling[i] as nat) < 128 by {
        if i > 0 {
            assert(spelling[i] == notation[i - 1]);
        }
    }
    text::lemma_ascii_encoding(spelling);
    let bytes = text::ascii(spelling);
    assert(bytes.skip(1) =~= text::ascii(notation));
    decimal::lemma_notation_digits(number as nat);
}

/// The server that an object lives on: the path of its socket.
pub struct ServerIdentity {
    socket_path: Vec<u8>,
}

impl ServerIdentity {
    /// The path in contracts.
    pub closed spec fn view(&self) -> Seq<u8> {
        self.socket_path@
    }

    /// The identity of the server behind a socket.
    pub fn from_socket_path(socket_path: Vec<u8>) -> (identity: ServerIdentity)
        ensures
            identity@ == socket_path@,
    {
        ServerIdentity { socket_path }
    }

    /// The path of the socket.
    pub fn socket_path(&self) -> (path: &[u8])
        ensures
            path@ == self@,
    {
        self.socket_path.as_slice()
    }

    /// Copy the identity.
    pub fn copy(&self) -> (copy: ServerIdentity)
        ensures
            copy@ == self@,
    {
        ServerIdentity { socket_path: copy_bytes(self.socket_path.as_slice()) }
    }

    /// A rendering that does not show where the socket is.
    pub fn debug_text(&self) -> (rendering: String)
        ensures
            rendering@ == "ServerIdentity { .. }"@,
    {
        "ServerIdentity { .. }".to_owned()
    }
}

impl Clone for ServerIdentity {
    fn clone(&self) -> (copy: Self)
        ensures
            copy@ == self@,
    {
        self.copy()
    }
}

impl PartialEq for ServerIdentity {
    fn eq(&self, other: &Self) -> (same: bool) {
        text::bytes_eq(self.socket_path.as_slice(), other.socket_path.as_slice())
    }
}

impl vstd::std_specs::cmp::PartialEqSpecImpl for ServerIdentity {
    open spec fn obeys_eq_spec() -> bool {
        true
    }

    open spec fn eq_spec(&self, other: &Self) -> bool {
        self@ == other@
    }
}

impl Eq for ServerIdentity {

}

/// The edge that links a window into a session at an index.
pub struct WindowLinkIdentity {
    server_identity: ServerIdentity,
    session_id: SessionId,
    window_index: i32,
    window_id: WindowId,
}

/// An edge in contracts.
#[verifier::ext_equal]
pub ghost struct LinkV {
    pub server: Seq<u8>,
    pub session: u32,
    pub index: i32,
    pub window: u32,
}

/// The rendering of an edge, which does not show where the socket is.
pub open spec fn link_rendering(link: LinkV) -> Seq<char> {
    text::struct_rendering(
        "WindowLinkIdentity"@,
        seq![
            ("server_identity"@, "ServerIdentity { .. }"@),
            ("session_id"@, id_text('$', link.session)),
            ("window_index"@, decimal::signed_decimal(link.index as int)),
            ("window_id"@, id_text('@', link.window)),
        ],
    )
}

impl WindowLinkIdentity {
    /// The edge in contracts.
    pub closed spec fn view(&self) -> LinkV {
        LinkV {
            server: self.server_identity@,
            session: self.session_id@,
            index: self.window_index,
            window: self.window_id@,
        }
    }

    /// Name an edge.
    pub fn new(
        server_identity: ServerIdentity,
        session_id: SessionId,
        window_index: i32,
        window_id: WindowId,
    ) -> (identity: WindowLinkIdentity)
        ensures
            identity@ == (LinkV {
                server: server_identity@,
                session: session_id@,
                index: window_index,
                window: window_id@,
            }),
    {
        WindowLinkIdentity { server_identity, session_id, window_index, window_id }
    }

    /// Render the edge without the place of the socket.
    pub fn debug_text(&self) -> (rendering: String)
        ensures
            rendering@ == link_rendering(self@),
    {
        let mut members: Vec<(&'static str, String)> = Vec::new();
        members.push(("server_identity", self.server_identity.debug_text()));
        members.push(("session_id", self.session_id.text()));
        members.push(("window_index", format_signed(self.window_index as i128)));
        members.push(("window_id", self.window_id.text()));
        assert(text::member_views(members@) =~= seq![
            ("server_identity"@, "ServerIdentity { .. }"@),
            ("session_id"@, id_text('$', self@.session)),
            ("window_index"@, decimal::signed_decimal(self@.index as int)),
            ("window_id"@, id_text('@', self@.window)),
        ]);
        render_struct("WindowLinkIdentity", &members)
    }

    /// The server that both ends live on.
    pub fn server_identity(&self) -> (identity: &ServerIdentity)
        ensures
            identity@ == self@.server,
    {
        &self.server_identity
    }

    /// The session.
    pub fn session_id(&self) -> (id: SessionId)
        ensures
            id@ == self@.session,
    {
        self.session_id
    }

    /// The index that the window has in the session.
    pub fn window_index(&self) -> (index: i32)
        ensures
            index == self@.index,
    {
        self.window_index
    }

    /// The window.
    pub fn window_id(&self) -> (id: WindowId)
        ensures
            id@ == self@.window,
    {
        self.window_id
    }

    /// Copy the identity.
    pub fn copy(&self) -> (copy: WindowLinkIdentity)
        ensures
            copy@ == self@,
    {
        WindowLinkIdentity {
            server_identity: self.server_identity.copy(),
            session_id: self.session_id,
            window_index: self.window_index,
            window_id: self.window_id,
        }
    }
}

impl Clone for WindowLinkIdentity {
    fn clone(&self) -> (copy: Self)
        ensures
            copy@ == self@,
    {
        self.copy()
    }
}

impl PartialEq for WindowLinkIdentity {
    fn eq(&self, other: &Self) -> (same: bool) {
        proof {
            lemma_session_id_is_its_number(self.session_id, other.session_id);
            lemma_window_id_is_its_number(self.window_id, other.window_id);
        }
        self.server_identity == other.server_identity && self.session_id == other.session_id
            && self.window_index == other.window_index && self.window_id == other.window_id
    }
}

impl vstd::std_specs::cmp::PartialEqSpecImpl for WindowLinkIdentity {
    open spec fn obeys_eq_spec() -> bool {
        true
    }

    open spec fn eq_spec(&self, other: &Self) -> bool {
        self@ == other@
    }
}

impl Eq for WindowLinkIdentity {

}

/// An identity is its mark and the digits of its number, which fits 32 bits.
/// Another mark, no digit or anything but digits behind it name none.
pub proof fn law_identities_are_a_mark_and_digits(sigil: u8, digits: Seq<u8>, other: u8)
    ensures
        id_number(sigil, Seq::empty()) is None,
        other != sigil ==> id_number(sigil, seq![other] + digits) is None,
        decimal::digits(digits) && decimal::digits_value(digits) <= u32::MAX ==> id_number(
            sigil,
            seq![sigil] + digits,
        ) == Some(decimal::digits_value(digits) as u32),
        !decimal::digits(digits) || decimal::digits_value(digits) > u32::MAX ==> id_number(
            sigil,
            seq![sigil] + digits,
        ) is None,
{
    assert((seq![sigil] + digits).skip(1) =~= digits);
    assert((seq![sigil] + digits)[0] == sigil);
    assert((seq![other] + digits)[0] == other);
}

/// An identity is spelled as its mark and the notation of its number.
pub proof fn law_identities_are_spelled_with_their_mark(sigil: char, number: u32)
    ensures
        id_text(sigil, number).len() == decimal::decimal(number as nat).len() + 1,
        id_text(sigil, number)[0] == sigil,
        id_text(sigil, number).skip(1) == decimal::decimal(number as nat),
{
    assert(id_text(sigil, number).skip(1) =~= decimal::decimal(number as nat));
}

/// The rendering of an edge shows its session, its index and its window, and of
/// the server nothing.
pub proof fn law_edges_are_rendered_without_their_server(link: LinkV)
    ensures
        link_rendering(link) == text::struct_rendering(
            "WindowLinkIdentity"@,
            seq![
                ("server_identity"@, "ServerIdentity { .. }"@),
                ("session_id"@, seq!['$'] + decimal::decimal(link.session as nat)),
                ("window_index"@, decimal::signed_decimal(link.index as int)),
                ("window_id"@, seq!['@'] + decimal::decimal(link.window as nat)),
            ],
        ),
{
}

} // verus!
