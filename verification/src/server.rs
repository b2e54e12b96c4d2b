//! A tmux server: where it listens, what is asked of it, and what its answers
//! mean.

use vstd::prelude::*;

pub mod access;
pub mod buffers;
pub mod builder;
pub mod channels;
pub mod discovery;
pub mod dispatch;
pub mod environment;
pub mod hierarchy;
pub mod interactive;
pub mod keys;
pub mod lifecycle;
pub mod limits;
pub mod settings;

use crate::error::Error;
use crate::error::ServerConfigurationErrorKind;
use crate::server::builder::BuildContext;
use crate::server::builder::ServerBuilder;
use crate::server::limits::DispatchLimits;
use crate::server::limits::OutputLimits;
use crate::target::ServerIdentity;
use crate::text;
use crate::text::render_open_struct;

verus! {

/// A span of time.
#[derive(Clone, Copy, Debug, PartialEq, Eq, Structural)]
pub struct Timeout {
    pub seconds: u64,
    pub nanoseconds: u32,
}

impl Timeout {
    /// Whether a span is shorter than another one.
    pub open spec fn shorter(self, other: Timeout) -> bool {
        self.seconds < other.seconds || (self.seconds == other.seconds && self.nanoseconds
            < other.nanoseconds)
    }

    /// A span of whole seconds.
    pub fn from_secs(seconds: u64) -> (timeout: Timeout)
        ensures
            timeout == (Timeout { seconds, nanoseconds: 0 }),
    {
        Timeout { seconds, nanoseconds: 0 }
    }

    /// The shorter of two spans.
    pub fn min(self, other: Timeout) -> (shorter: Timeout)
        ensures
            shorter == if other.shorter(self) {
                other
            } else {
                self
            },
    {
        if other.seconds < self.seconds || (other.seconds == self.seconds && other.nanoseconds
            < self.nanoseconds) {
            other
        } else {
            self
        }
    }

    /// The whole seconds of a span and the nanoseconds that remain. A span that
    /// 64 bits of seconds cannot hold is the longest one that they can.
    pub open spec fn parts(self) -> (u64, u32) {
        let seconds = self.seconds + self.nanoseconds / 1_000_000_000;
        if seconds <= u64::MAX {
            (seconds as u64, self.nanoseconds % 1_000_000_000)
        } else {
            (u64::MAX, 999_999_999)
        }
    }

    /// Render the span.
    pub fn debug_text(self) -> (rendering: String)
        ensures
            rendering@ == duration_text(self.parts().0, self.parts().1),
    {
        match self.seconds.checked_add((self.nanoseconds / 1_000_000_000) as u64) {
            Some(seconds) => render_duration(seconds, self.nanoseconds % 1_000_000_000),
            None => render_duration(u64::MAX, 999_999_999),
        }
    }
}

/// The text that the standard `Debug` of `std::time::Duration` gives for whole
/// seconds and the nanoseconds that remain.
pub uninterp spec fn duration_text(seconds: u64, nanoseconds: u32) -> Seq<char>;

/// Render a duration.
///
/// Calls the standard `Debug` of `std::time::Duration`. It is trusted to be a
/// function of the seconds and the nanoseconds; how it writes them stays unsaid.
#[verifier::external_body]
fn render_duration(seconds: u64, nanoseconds: u32) -> (rendering: String)
    requires
        nanoseconds < 1_000_000_000,
    ensures
        rendering@ == duration_text(seconds, nanoseconds),
{
    format!("{:?}", std::time::Duration::new(seconds, nanoseconds))
}

/// A handle to one captured tmux server endpoint.
///
/// Equality uses only the captured [`ServerIdentity`].
pub struct Server {
    identity: ServerIdentity,
    socket_name: Option<Vec<u8>>,
    config_file: Option<Vec<u8>>,
    colors: Option<u16>,
    executable: Vec<u8>,
    timeout: Timeout,
    output_limits: OutputLimits,
    dispatch_limits: DispatchLimits,
}

/// A server endpoint in contracts.
#[verifier::ext_equal]
pub ghost struct ServerV {
    pub socket_path: Seq<u8>,
    pub socket_name: Option<Seq<u8>>,
    pub config_file: Option<Seq<u8>>,
    pub colors: Option<u16>,
    pub executable: Seq<u8>,
    pub timeout: Timeout,
    pub output_limits: OutputLimits,
    pub dispatch_limits: DispatchLimits,
}

/// Bytes that may be absent, in contracts.
pub open spec fn maybe_bytes(bytes: Option<Vec<u8>>) -> Option<Seq<u8>> {
    match bytes {
        Some(bytes) => Some(bytes@),
        None => None,
    }
}

impl Server {
    /// The endpoint in contracts.
    pub closed spec fn view(&self) -> ServerV {
        ServerV {
            socket_path: self.identity@,
            socket_name: maybe_bytes(self.socket_name),
            config_file: maybe_bytes(self.config_file),
            colors: self.colors,
            executable: self.executable@,
            timeout: self.timeout,
            output_limits: self.output_limits,
            dispatch_limits: self.dispatch_limits,
        }
    }

    /// Capture an endpoint.
    pub(crate) fn captured(
        socket_path: Vec<u8>,
        socket_name: Option<Vec<u8>>,
        config_file: Option<Vec<u8>>,
        colors: Option<u16>,
        executable: Vec<u8>,
        timeout: Timeout,
        output_limits: OutputLimits,
        dispatch_limits: DispatchLimits,
    ) -> (server: Server)
        ensures
            server@ == (ServerV {
                socket_path: socket_path@,
                socket_name: maybe_bytes(socket_name),
                config_file: maybe_bytes(config_file),
                colors,
                executable: executable@,
                timeout,
                output_limits,
                dispatch_limits,
            }),
    {
        Server {
            identity: ServerIdentity::from_socket_path(socket_path),
            socket_name,
            config_file,
            colors,
            executable,
            timeout,
            output_limits,
            dispatch_limits,
        }
    }

    /// Construct a server from the captured default endpoint context.
    ///
    /// # Errors
    ///
    /// The reasons of [`ServerBuilder::build`].
    pub fn new(context: &BuildContext) -> (server: Result<Server, Error>)
        ensures
            builder::outcome(server) == builder::built(builder::unconfigured(), context@),
            server matches Err(error) ==> error@ is InvalidServerConfiguration,
    {
        Server::builder().build(context)
    }

    /// Start a consuming server builder.
    pub fn builder() -> (builder: ServerBuilder)
        ensures
            builder@ == builder::unconfigured(),
    {
        ServerBuilder::new()
    }

    /// Build a server from a `TMUX` value.
    ///
    /// tmux sets `TMUX` to `<socket_path>,<server_pid>,<session_id>`. Only the
    /// socket path is used, which is everything before the first comma.
    ///
    /// # Errors
    ///
    /// [`ServerConfigurationErrorKind::NotInsideTmux`] for no value,
    /// [`ServerConfigurationErrorKind::MalformedTmuxVariable`] for one that is
    /// not such a triple, and the reasons of [`ServerBuilder::build`].
    pub fn from_env_value(value: Option<&[u8]>, context: &BuildContext) -> (server: Result<
        Server,
        Error,
    >)
        ensures
            builder::outcome(server) == match socket_of(
                match value {
                    Some(value) => Some(value@),
                    None => None,
                },
            ) {
                Err(kind) => Err(kind),
                Ok(path) => builder::built(
                    (builder::BuilderV { socket_path: Some(path), ..builder::unconfigured() }),
                    context@,
                ),
            },
            server matches Err(error) ==> error@ is InvalidServerConfiguration,
    {
        let value = match value {
            Some(value) => value,
            None => return Err(
                Error::InvalidServerConfiguration(ServerConfigurationErrorKind::NotInsideTmux),
            ),
        };
        let mut path: Vec<u8> = Vec::new();
        let mut index: usize = 0;
        while index < value.len() && value[index] != 44
            invariant
                index <= value@.len(),
                path@ == value@.take(index as int),
                forall|i: int| 0 <= i < index ==> #[trigger] value@[i] != 44,
            decreases value@.len() - index,
        {
            path.push(value[index]);
            assert(path@ =~= value@.take(index + 1));
            index += 1;
        }
        proof {
            lemma_comma_at(value@, index as int);
        }
        if index == value.len() || index == 0 {
            return Err(
                Error::InvalidServerConfiguration(
                    ServerConfigurationErrorKind::MalformedTmuxVariable,
                ),
            );
        }
        let ghost rest = value@.skip(index + 1);
        let mut end: usize = index + 1;
        while end < value.len() && value[end] != 44
            invariant
                index < end <= value@.len(),
                rest == value@.skip(index + 1),
                forall|i: int| 0 <= i < end - index - 1 ==> #[trigger] rest[i] != 44,
            decreases value@.len() - end,
        {
            assert(rest[end - index - 1] == value@[end as int]);
            end += 1;
        }
        proof {
            lemma_comma_at(rest, end - index - 1);
        }
        if end == index + 1 || value.len() - end <= 1 {
            return Err(
                Error::InvalidServerConfiguration(
                    ServerConfigurationErrorKind::MalformedTmuxVariable,
                ),
            );
        }
        Server::builder().socket_path(path).build(context)
    }

    /// Return the captured structural endpoint identity.
    pub fn identity(&self) -> (identity: &ServerIdentity)
        ensures
            identity@ == self@.socket_path,
    {
        &self.identity
    }

    /// Return the captured absolute socket path used for identity and dispatch.
    pub fn socket_path(&self) -> (path: &[u8])
        ensures
            path@ == self@.socket_path,
    {
        self.identity.socket_path()
    }

    /// Return the configured named socket selector, if any.
    pub fn socket_name(&self) -> (name: Option<&[u8]>)
        ensures
            match name {
                Some(name) => self@.socket_name == Some(name@),
                None => self@.socket_name is None,
            },
    {
        match &self.socket_name {
            Some(name) => Some(name.as_slice()),
            None => None,
        }
    }

    /// Return the captured config path, if configured.
    pub fn config_file(&self) -> (path: Option<&[u8]>)
        ensures
            match path {
                Some(path) => self@.config_file == Some(path@),
                None => self@.config_file is None,
            },
    {
        match &self.config_file {
            Some(path) => Some(path.as_slice()),
            None => None,
        }
    }

    /// Return the configured tmux color mode.
    pub fn colors(&self) -> (colors: Option<u16>)
        ensures
            colors == self@.colors,
    {
        self.colors
    }

    /// Return the captured tmux executable value.
    pub fn tmux_executable(&self) -> (executable: &[u8])
        ensures
            executable@ == self@.executable,
    {
        self.executable.as_slice()
    }

    /// Return the captured per-command timeout.
    pub fn default_timeout(&self) -> (timeout: Timeout)
        ensures
            timeout == self@.timeout,
    {
        self.timeout
    }

    /// Return the captured limits of what one command may read.
    pub fn output_limits(&self) -> (limits: OutputLimits)
        ensures
            limits == self@.output_limits,
    {
        self.output_limits
    }

    /// Return the captured limits of what may run at once.
    pub fn dispatch_limits(&self) -> (limits: DispatchLimits)
        ensures
            limits == self@.dispatch_limits,
    {
        self.dispatch_limits
    }

    /// A rendering that does not show where the socket is.
    pub fn debug_text(&self) -> (rendering: String)
        ensures
            rendering@ == text::open_rendering(
                "Server"@,
                seq![("identity"@, "ServerIdentity { .. }"@)],
            ),
    {
        let mut members: Vec<(&'static str, String)> = Vec::new();
        members.push(("identity", self.identity.debug_text()));
        assert(text::member_views(members@) =~= seq![("identity"@, "ServerIdentity { .. }"@)]);
        render_open_struct("Server", &members)
    }
}

impl PartialEq for Server {
    fn eq(&self, other: &Self) -> (same: bool) {
        self.identity == other.identity
    }
}

impl vstd::std_specs::cmp::PartialEqSpecImpl for Server {
    open spec fn obeys_eq_spec() -> bool {
        true
    }

    open spec fn eq_spec(&self, other: &Self) -> bool {
        self@.socket_path == other@.socket_path
    }
}

impl Eq for Server {

}

/// How many bytes stand in front of the first comma.
pub open spec fn before_comma(value: Seq<u8>) -> nat
    decreases value.len(),
{
    if value.len() == 0 || value[0] == 44 {
        0
    } else {
        1 + before_comma(value.skip(1))
    }
}

proof fn lemma_comma_at(value: Seq<u8>, end: int)
    requires
        0 <= end <= value.len(),
        end < value.len() ==> value[end] == 44,
        forall|i: int| 0 <= i < end ==> #[trigger] value[i] != 44,
    ensures
        before_comma(value) == end,
    decreases end,
{
    if end > 0 {
        let rest = value.skip(1);
        assert forall|i: int| 0 <= i < end - 1 implies #[trigger] rest[i] != 44 by {
            assert(rest[i] == value[i + 1]);
        }
        lemma_comma_at(rest, end - 1);
    }
}

/// The socket path that a `TMUX` value names: the first of three parts that
/// commas separate. The path ends at the first comma and the process number at
/// the second one, and no part is empty.
pub open spec fn socket_of(value: Option<Seq<u8>>) -> Result<
    Seq<u8>,
    ServerConfigurationErrorKind,
> {
    match value {
        None => Err(ServerConfigurationErrorKind::NotInsideTmux),
        Some(value) => {
            let end = before_comma(value);
            let rest = value.skip(end as int + 1);
            let process = before_comma(rest);
            if end == 0 || end >= value.len() || process == 0 || process + 1 >= rest.len() {
                Err(ServerConfigurationErrorKind::MalformedTmuxVariable)
            } else {
                Ok(value.take(end as int))
            }
        },
    }
}

/// The socket path of a `TMUX` value as tmux writes it is the path, whatever
/// the process and the session are.
pub proof fn law_tmux_variables_name_their_socket(
    path: Seq<u8>,
    process: Seq<u8>,
    session: Seq<u8>,
)
    requires
        path.len() > 0,
        process.len() > 0,
        session.len() > 0,
        forall|i: int| 0 <= i < path.len() ==> #[trigger] path[i] != 44,
        forall|i: int| 0 <= i < process.len() ==> #[trigger] process[i] != 44,
    ensures
        socket_of(Some(path + seq![44u8] + process + seq![44u8] + session)) == Ok::<
            Seq<u8>,
            ServerConfigurationErrorKind,
        >(path),
{
    let value = path + seq![44u8] + process + seq![44u8] + session;
    lemma_comma_at(value, path.len() as int);
    assert(value.take(path.len() as int) =~= path);
    let rest = value.skip(path.len() as int + 1);
    assert(rest =~= process + seq![44u8] + session);
    lemma_comma_at(rest, process.len() as int);
}

/// Of two spans that hold less than a second of nanoseconds, the shorter one is
/// the one with fewer nanoseconds in all.
pub proof fn law_spans_are_compared_in_all(left: Timeout, right: Timeout)
    requires
        left.nanoseconds < 1_000_000_000,
        right.nanoseconds < 1_000_000_000,
    ensures
        left.shorter(right) <==> left.seconds * 1_000_000_000 + left.nanoseconds < right.seconds
            * 1_000_000_000 + right.nanoseconds,
{
}

/// The parts of a span are the span, with less than a second of nanoseconds,
/// unless its seconds do not fit, where they are the longest span that fits.
pub proof fn law_parts_make_up_the_span(span: Timeout)
    ensures
        ({
            let (seconds, nanoseconds) = span.parts();
            let total = span.seconds * 1_000_000_000 + span.nanoseconds;
            let limit = u64::MAX * 1_000_000_000 + 999_999_999;
            &&& nanoseconds < 1_000_000_000
            &&& total <= limit ==> seconds * 1_000_000_000 + nanoseconds == total
            &&& total > limit ==> seconds == u64::MAX && nanoseconds == 999_999_999
        }),
{
}

/// A variable names a socket exactly where it holds three parts that are not
/// empty, parted by commas, of which the first two hold none. The socket is the
/// first.
pub proof fn law_sockets_are_the_first_of_three_parts(value: Seq<u8>, path: Seq<u8>)
    ensures
        socket_of(Some(value)) == Ok::<Seq<u8>, ServerConfigurationErrorKind>(path) ==> exists|
            process: Seq<u8>,
            session: Seq<u8>,
        |
            value == #[trigger] (path + seq![44u8] + process + seq![44u8] + session) && path.len()
                > 0 && process.len() > 0 && session.len() > 0 && !path.contains(44)
                && !process.contains(44),
        socket_of(None) == Err::<Seq<u8>, ServerConfigurationErrorKind>(
            ServerConfigurationErrorKind::NotInsideTmux,
        ),
        socket_of(Some(value)) is Err ==> socket_of(Some(value))->Err_0
            is MalformedTmuxVariable,
{
    lemma_before_comma_bounds(value);
    let end = before_comma(value) as int;
    let rest = value.skip(end + 1);
    lemma_before_comma_bounds(rest);
    let length = before_comma(rest) as int;
    if socket_of(Some(value)) == Ok::<Seq<u8>, ServerConfigurationErrorKind>(path) {
        let process = rest.take(length);
        let session = rest.skip(length + 1);
        assert(value =~= path + seq![44u8] + rest);
        assert(rest =~= process + seq![44u8] + session);
        assert(value =~= path + seq![44u8] + process + seq![44u8] + session);
        assert forall|i: int| 0 <= i < path.len() implies #[trigger] path[i] != 44 by {
            assert(path[i] == value[i]);
        }
        assert forall|i: int| 0 <= i < process.len() implies #[trigger] process[i] != 44 by {
            assert(process[i] == rest[i]);
        }
    }
}

proof fn lemma_before_comma_bounds(value: Seq<u8>)
    ensures
        before_comma(value) <= value.len(),
        before_comma(value) < value.len() ==> value[before_comma(value) as int] == 44,
        forall|i: int| 0 <= i < before_comma(value) ==> #[trigger] value[i] != 44,
    decreases value.len(),
{
    if value.len() > 0 && value[0] != 44 {
        let rest = value.skip(1);
        lemma_before_comma_bounds(rest);
        assert forall|i: int| 0 <= i < before_comma(value) implies #[trigger] value[i] != 44 by {
            if i > 0 {
                assert(value[i] == rest[i - 1]);
            }
        }
    }
}

} // verus!
