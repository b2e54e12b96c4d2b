//! Configuring a server.

use vstd::prelude::*;
use vstd::string::*;
use vstd::utf8::*;

use crate::command::text_bytes;
use crate::error;
use crate::error::Error;
use crate::error::ServerConfigurationErrorKind;
use crate::server;
use crate::server::lifecycle;
use crate::server::lifecycle::render_maybe;
use crate::server::limits;
use crate::server::limits::DispatchLimits;
use crate::server::limits::OutputLimits;
use crate::server::Server;
use crate::server::Timeout;
use crate::text;
use crate::text::copy_bytes;
use crate::text::render_open_struct;

verus! {

/// What a process knows about where it runs.
pub struct BuildContext {
    /// The working directory, which relative paths are joined to.
    pub working_directory: Option<Vec<u8>>,
    /// The directory of named sockets.
    pub socket_root: Option<Vec<u8>>,
}

/// What a process knows about where it runs, in contracts.
#[verifier::ext_equal]
pub ghost struct ContextV {
    pub working_directory: Option<Seq<u8>>,
    pub socket_root: Option<Seq<u8>>,
}

impl BuildContext {
    /// The context in contracts.
    pub open spec fn view(&self) -> ContextV {
        ContextV {
            working_directory: server::maybe_bytes(self.working_directory),
            socket_root: server::maybe_bytes(self.socket_root),
        }
    }
}

/// Which socket a server listens on.
pub enum SocketSelection {
    /// The socket with a name.
    Name(Vec<u8>),
    /// The socket at a path.
    Path(Vec<u8>),
    /// The default socket.
    Automatic,
}

/// Which socket a server listens on, in contracts.
#[verifier::ext_equal]
pub ghost enum SelectionV {
    Name(Seq<u8>),
    Path(Seq<u8>),
    Automatic,
}

/// A consuming builder for one inert [`Server`] handle.
pub struct ServerBuilder {
    socket_name: Option<Vec<u8>>,
    socket_path: Option<Vec<u8>>,
    config_file: Option<Vec<u8>>,
    colors: Option<u16>,
    executable: Vec<u8>,
    timeout: Timeout,
    output_limits: OutputLimits,
    dispatch_limits: DispatchLimits,
}

/// A builder in contracts.
#[verifier::ext_equal]
pub ghost struct BuilderV {
    pub socket_name: Option<Seq<u8>>,
    pub socket_path: Option<Seq<u8>>,
    pub config_file: Option<Seq<u8>>,
    pub colors: Option<u16>,
    pub executable: Seq<u8>,
    pub timeout: Timeout,
    pub output_limits: OutputLimits,
    pub dispatch_limits: DispatchLimits,
}

/// A builder that nothing was said to.
pub open spec fn unconfigured() -> BuilderV {
    BuilderV {
        socket_name: None,
        socket_path: None,
        config_file: None,
        colors: None,
        executable: encode_utf8("tmux"@),
        timeout: Timeout { seconds: 30, nanoseconds: 0 },
        output_limits: OutputLimits { max_stdout_bytes: None },
        dispatch_limits: DispatchLimits { max_in_flight: None },
    }
}

/// Which socket a builder selects.
pub open spec fn selected(builder: BuilderV) -> Result<SelectionV, ServerConfigurationErrorKind> {
    match (builder.socket_name, builder.socket_path) {
        (Some(name), None) => Ok(SelectionV::Name(name)),
        (None, Some(path)) => Ok(SelectionV::Path(path)),
        (None, None) => Ok(SelectionV::Automatic),
        (Some(_), Some(_)) => Err(ServerConfigurationErrorKind::ConflictingSocketSelectors),
    }
}

/// A path under a directory.
pub open spec fn under(directory: Seq<u8>, path: Seq<u8>) -> Seq<u8> {
    if directory.len() > 0 && directory.last() == 47 {
        directory + path
    } else {
        directory + seq![47u8] + path
    }
}

/// A path that does not depend on the working directory.
pub open spec fn absolute(path: Seq<u8>, context: ContextV) -> Result<
    Seq<u8>,
    ServerConfigurationErrorKind,
> {
    if path.len() == 0 {
        Err(ServerConfigurationErrorKind::EmptyPath)
    } else if path[0] == 47 {
        Ok(path)
    } else {
        match context.working_directory {
            Some(directory) => Ok(under(directory, path)),
            None => Err(ServerConfigurationErrorKind::WorkingDirectoryUnavailable),
        }
    }
}

/// Whether a socket name is a plain file name.
pub open spec fn plain(name: Seq<u8>) -> bool {
    name.len() > 0 && !name.contains(47)
}

/// The path of a named socket.
pub open spec fn named(name: Seq<u8>, context: ContextV) -> Result<
    Seq<u8>,
    ServerConfigurationErrorKind,
> {
    if !plain(name) {
        Err(ServerConfigurationErrorKind::InvalidSocketName)
    } else {
        match context.socket_root {
            Some(root) => Ok(under(root, name)),
            None => Err(ServerConfigurationErrorKind::SocketRootUnavailable),
        }
    }
}

/// The path of a selected socket.
pub open spec fn located(selection: SelectionV, context: ContextV) -> Result<
    Seq<u8>,
    ServerConfigurationErrorKind,
> {
    match selection {
        SelectionV::Path(path) => absolute(path, context),
        SelectionV::Name(name) => named(name, context),
        SelectionV::Automatic => named(encode_utf8("default"@), context),
    }
}

/// The server that a builder describes.
pub open spec fn built(builder: BuilderV, context: ContextV) -> Result<
    server::ServerV,
    ServerConfigurationErrorKind,
> {
    match selected(builder) {
        Err(kind) => Err(kind),
        Ok(selection) => match located(selection, context) {
            Err(kind) => Err(kind),
            Ok(socket_path) => match configured(builder.config_file, context) {
                Err(kind) => Err(kind),
                Ok(config_file) => if !usable_colors(builder.colors) {
                    Err(ServerConfigurationErrorKind::InvalidColors)
                } else {
                    Ok(
                        server::ServerV {
                            socket_path,
                            socket_name: builder.socket_name,
                            config_file,
                            colors: builder.colors,
                            executable: builder.executable,
                            timeout: builder.timeout,
                            output_limits: builder.output_limits,
                            dispatch_limits: builder.dispatch_limits,
                        },
                    )
                },
            },
        },
    }
}

/// The path of a configuration file, if there is one.
pub open spec fn configured(file: Option<Seq<u8>>, context: ContextV) -> Result<
    Option<Seq<u8>>,
    ServerConfigurationErrorKind,
> {
    match file {
        None => Ok(None),
        Some(path) => match absolute(path, context) {
            Ok(path) => Ok(Some(path)),
            Err(kind) => Err(kind),
        },
    }
}

/// Whether tmux has a color mode.
pub open spec fn usable_colors(colors: Option<u16>) -> bool {
    match colors {
        Some(colors) => colors == 88 || colors == 256,
        None => true,
    }
}

/// The outcome of building, in contracts.
pub open spec fn outcome(server: Result<Server, Error>) -> Result<
    server::ServerV,
    ServerConfigurationErrorKind,
> {
    match server {
        Ok(server) => Ok(server@),
        Err(error) => Err(error@->InvalidServerConfiguration_0),
    }
}

impl SocketSelection {
    /// The selection in contracts.
    pub open spec fn view(&self) -> SelectionV {
        match self {
            SocketSelection::Name(name) => SelectionV::Name(name@),
            SocketSelection::Path(path) => SelectionV::Path(path@),
            SocketSelection::Automatic => SelectionV::Automatic,
        }
    }
}

/// Put a path under a directory.
fn put_under(directory: &Vec<u8>, path: Vec<u8>) -> (full: Vec<u8>)
    ensures
        full@ == under(directory@, path@),
{
    let ghost tail = path@;
    let mut full = copy_bytes(directory.as_slice());
    let mut path = path;
    if directory.len() == 0 || directory[directory.len() - 1] != 47 {
        full.push(47);
    }
    full.append(&mut path);
    assert(full@ =~= under(directory@, tail));
    full
}

/// Make a path absolute.
fn make_absolute(path: Vec<u8>, context: &BuildContext) -> (full: Result<
    Vec<u8>,
    ServerConfigurationErrorKind,
>)
    ensures
        match full {
            Ok(full) => absolute(path@, context@) == Ok::<Seq<u8>, ServerConfigurationErrorKind>(
                full@,
            ),
            Err(kind) => absolute(path@, context@) == Err::<
                Seq<u8>,
                ServerConfigurationErrorKind,
            >(kind),
        },
{
    if path.len() == 0 {
        return Err(ServerConfigurationErrorKind::EmptyPath);
    }
    if path[0] == 47 {
        return Ok(path);
    }
    match &context.working_directory {
        Some(directory) => Ok(put_under(directory, path)),
        None => Err(ServerConfigurationErrorKind::WorkingDirectoryUnavailable),
    }
}

/// Report whether a socket name is a plain file name.
fn is_plain(name: &Vec<u8>) -> (is: bool)
    ensures
        is == plain(name@),
{
    let mut index: usize = 0;
    while index < name.len()
        invariant
            index <= name@.len(),
            forall|i: int| 0 <= i < index ==> #[trigger] name@[i] != 47,
        decreases name@.len() - index,
    {
        if name[index] == 47 {
            assert(name@[index as int] == 47);
            return false;
        }
        index += 1;
    }
    name.len() > 0
}

/// Locate a named socket.
fn locate_named(name: Vec<u8>, context: &BuildContext) -> (full: Result<
    Vec<u8>,
    ServerConfigurationErrorKind,
>)
    ensures
        match full {
            Ok(full) => named(name@, context@) == Ok::<Seq<u8>, ServerConfigurationErrorKind>(
                full@,
            ),
            Err(kind) => named(name@, context@) == Err::<Seq<u8>, ServerConfigurationErrorKind>(
                kind,
            ),
        },
{
    if !is_plain(&name) {
        return Err(ServerConfigurationErrorKind::InvalidSocketName);
    }
    match &context.socket_root {
        Some(root) => Ok(put_under(root, name)),
        None => Err(ServerConfigurationErrorKind::SocketRootUnavailable),
    }
}

/// Locate a selected socket.
fn locate(selection: SocketSelection, context: &BuildContext) -> (full: Result<
    Vec<u8>,
    ServerConfigurationErrorKind,
>)
    ensures
        match full {
            Ok(full) => located(selection@, context@) == Ok::<
                Seq<u8>,
                ServerConfigurationErrorKind,
            >(full@),
            Err(kind) => located(selection@, context@) == Err::<
                Seq<u8>,
                ServerConfigurationErrorKind,
            >(kind),
        },
{
    match selection {
        SocketSelection::Path(path) => make_absolute(path, context),
        SocketSelection::Name(name) => locate_named(name, context),
        SocketSelection::Automatic => locate_named(text_bytes("default"), context),
    }
}

/// Copy bytes that may be absent.
fn copy_maybe(bytes: &Option<Vec<u8>>) -> (copy: Option<Vec<u8>>)
    ensures
        server::maybe_bytes(copy) == server::maybe_bytes(*bytes),
{
    match bytes {
        Some(bytes) => Some(copy_bytes(bytes.as_slice())),
        None => None,
    }
}

impl ServerBuilder {
    /// The builder in contracts.
    pub closed spec fn view(&self) -> BuilderV {
        BuilderV {
            socket_name: server::maybe_bytes(self.socket_name),
            socket_path: server::maybe_bytes(self.socket_path),
            config_file: server::maybe_bytes(self.config_file),
            colors: self.colors,
            executable: self.executable@,
            timeout: self.timeout,
            output_limits: self.output_limits,
            dispatch_limits: self.dispatch_limits,
        }
    }

    /// Start without a configuration.
    pub fn new() -> (builder: ServerBuilder)
        ensures
            builder@ == unconfigured(),
    {
        ServerBuilder {
            socket_name: None,
            socket_path: None,
            config_file: None,
            colors: None,
            executable: text_bytes("tmux"),
            timeout: Timeout::from_secs(30),
            output_limits: OutputLimits { max_stdout_bytes: None },
            dispatch_limits: DispatchLimits { max_in_flight: None },
        }
    }

    /// Select a named tmux socket.
    pub fn socket_name(self, name: Vec<u8>) -> (builder: ServerBuilder)
        ensures
            builder@ == (BuilderV { socket_name: Some(name@), ..self@ }),
    {
        let mut builder = self;
        builder.socket_name = Some(name);
        builder
    }

    /// Select an explicit tmux socket path. A relative path is joined to the
    /// working directory.
    pub fn socket_path(self, path: Vec<u8>) -> (builder: ServerBuilder)
        ensures
            builder@ == (BuilderV { socket_path: Some(path@), ..self@ }),
    {
        let mut builder = self;
        builder.socket_path = Some(path);
        builder
    }

    /// Select a tmux configuration file. A relative path is joined to the
    /// working directory.
    pub fn config_file(self, path: Vec<u8>) -> (builder: ServerBuilder)
        ensures
            builder@ == (BuilderV { config_file: Some(path@), ..self@ }),
    {
        let mut builder = self;
        builder.config_file = Some(path);
        builder
    }

    /// Select tmux's 88- or 256-color compatibility mode.
    pub fn colors(self, colors: u16) -> (builder: ServerBuilder)
        ensures
            builder@ == (BuilderV { colors: Some(colors), ..self@ }),
    {
        let mut builder = self;
        builder.colors = Some(colors);
        builder
    }

    /// Select the tmux executable without checking that it exists yet.
    pub fn tmux_executable(self, executable: Vec<u8>) -> (builder: ServerBuilder)
        ensures
            builder@ == (BuilderV { executable: executable@, ..self@ }),
    {
        let mut builder = self;
        builder.executable = executable;
        builder
    }

    /// Set the per-command dispatch deadline.
    pub fn default_timeout(self, timeout: Timeout) -> (builder: ServerBuilder)
        ensures
            builder@ == (BuilderV { timeout, ..self@ }),
    {
        let mut builder = self;
        builder.timeout = timeout;
        builder
    }

    /// Bound how many bytes one command may read from tmux.
    pub fn output_limits(self, limits: OutputLimits) -> (builder: ServerBuilder)
        ensures
            builder@ == (BuilderV { output_limits: limits, ..self@ }),
    {
        let mut builder = self;
        builder.output_limits = limits;
        builder
    }

    /// Bound how many commands may run at once.
    pub fn dispatch_limits(self, limits: DispatchLimits) -> (builder: ServerBuilder)
        ensures
            builder@ == (BuilderV { dispatch_limits: limits, ..self@ }),
    {
        let mut builder = self;
        builder.dispatch_limits = limits;
        builder
    }

    /// Choose the socket.
    fn selection(&self) -> (selection: Result<SocketSelection, ServerConfigurationErrorKind>)
        ensures
            match selection {
                Ok(selection) => selected(self@) == Ok::<SelectionV, ServerConfigurationErrorKind>(
                    selection@,
                ),
                Err(kind) => selected(self@) == Err::<SelectionV, ServerConfigurationErrorKind>(
                    kind,
                ),
            },
    {
        match (&self.socket_name, &self.socket_path) {
            (Some(name), None) => Ok(SocketSelection::Name(copy_bytes(name.as_slice()))),
            (None, Some(path)) => Ok(SocketSelection::Path(copy_bytes(path.as_slice()))),
            (None, None) => Ok(SocketSelection::Automatic),
            (Some(_), Some(_)) => Err(ServerConfigurationErrorKind::ConflictingSocketSelectors),
        }
    }

    /// Construct an inert server handle.
    ///
    /// # Errors
    ///
    /// [`Error::InvalidServerConfiguration`] for two socket selectors, then for
    /// a socket that cannot be located, then for a configuration file that
    /// cannot be located, then for a color mode that tmux does not have.
    pub fn build(self, context: &BuildContext) -> (server: Result<Server, Error>)
        ensures
            outcome(server) == built(self@, context@),
            server matches Err(error) ==> error@ is InvalidServerConfiguration,
    {
        let selection = match self.selection() {
            Ok(selection) => selection,
            Err(kind) => return Err(Error::InvalidServerConfiguration(kind)),
        };
        let socket_path = match locate(selection, context) {
            Ok(path) => path,
            Err(kind) => return Err(Error::InvalidServerConfiguration(kind)),
        };
        let config_file = match &self.config_file {
            None => None,
            Some(path) => match make_absolute(copy_bytes(path.as_slice()), context) {
                Ok(path) => Some(path),
                Err(kind) => return Err(Error::InvalidServerConfiguration(kind)),
            },
        };
        let usable = match self.colors {
            Some(colors) => colors == 88 || colors == 256,
            None => true,
        };
        if !usable {
            return Err(
                Error::InvalidServerConfiguration(ServerConfigurationErrorKind::InvalidColors),
            );
        }
        Ok(
            Server::captured(
                socket_path,
                copy_maybe(&self.socket_name),
                config_file,
                self.colors,
                copy_bytes(self.executable.as_slice()),
                self.timeout,
                self.output_limits,
                self.dispatch_limits,
            ),
        )
    }

    /// A rendering that shows neither a path nor a name.
    pub fn debug_text(&self) -> (rendering: String)
        ensures
            rendering@ == builder_rendering(self@),
    {
        let mut members: Vec<(&'static str, String)> = Vec::new();
        members.push(("socket_name", render_presence(self.socket_name.is_some())));
        members.push(("socket_path", render_presence(self.socket_path.is_some())));
        members.push(("config_file", render_presence(self.config_file.is_some())));
        members.push(
            (
                "colors",
                render_maybe(
                    match self.colors {
                        Some(colors) => Some(colors as u32),
                        None => None,
                    },
                ),
            ),
        );
        members.push(("timeout", self.timeout.debug_text()));
        members.push(("output_limits", self.output_limits.debug_text()));
        members.push(("dispatch_limits", self.dispatch_limits.debug_text()));
        let ghost builder = self@;
        assert(text::member_views(members@) =~= seq![
            ("socket_name"@, presence(builder.socket_name is Some)),
            ("socket_path"@, presence(builder.socket_path is Some)),
            ("config_file"@, presence(builder.config_file is Some)),
            (
                "colors"@,
                lifecycle::maybe_number(
                    match builder.colors {
                        Some(colors) => Some(colors as u32),
                        None => None,
                    },
                ),
            ),
            (
                "timeout"@,
                server::duration_text(builder.timeout.parts().0, builder.timeout.parts().1),
            ),
            ("output_limits"@, limits::output_rendering(builder.output_limits)),
            ("dispatch_limits"@, limits::dispatch_rendering(builder.dispatch_limits)),
        ]);
        render_open_struct("ServerBuilder", &members)
    }
}

/// The rendering of something that is not shown.
pub open spec fn presence(present: bool) -> Seq<char> {
    if present {
        "Some(\"<redacted>\")"@
    } else {
        "None"@
    }
}

/// Render something that is not shown.
fn render_presence(present: bool) -> (rendering: String)
    ensures
        rendering@ == presence(present),
{
    if present {
        "Some(\"<redacted>\")".to_owned()
    } else {
        "None".to_owned()
    }
}

/// The rendering of a builder.
pub open spec fn builder_rendering(builder: BuilderV) -> Seq<char> {
    text::open_rendering(
        "ServerBuilder"@,
        seq![
            ("socket_name"@, presence(builder.socket_name is Some)),
            ("socket_path"@, presence(builder.socket_path is Some)),
            ("config_file"@, presence(builder.config_file is Some)),
            (
                "colors"@,
                lifecycle::maybe_number(
                    match builder.colors {
                        Some(colors) => Some(colors as u32),
                        None => None,
                    },
                ),
            ),
            (
                "timeout"@,
                server::duration_text(builder.timeout.parts().0, builder.timeout.parts().1),
            ),
            ("output_limits"@, limits::output_rendering(builder.output_limits)),
            ("dispatch_limits"@, limits::dispatch_rendering(builder.dispatch_limits)),
        ],
    )
}

/// A server's socket path does not depend on the working directory.
pub proof fn law_socket_paths_are_absolute(builder: BuilderV, context: ContextV)
    requires
        context.working_directory matches Some(directory) ==> directory.len() > 0 && directory[0]
            == 47,
        context.socket_root matches Some(root) ==> root.len() > 0 && root[0] == 47,
    ensures
        built(builder, context) matches Ok(server) ==> server.socket_path.len() > 0
            && server.socket_path[0] == 47,
{
}

/// A server is built exactly where at most one selector is set, the paths can
/// be made absolute, a name is the name of a socket, and the colors are 88 or
/// 256. It keeps what the builder was told.
pub proof fn law_builders_build_what_they_were_told(builder: BuilderV, context: ContextV)
    ensures
        built(builder, context) matches Ok(server) ==> {
            &&& server.socket_name == builder.socket_name
            &&& server.colors == builder.colors
            &&& server.executable == builder.executable
            &&& server.timeout == builder.timeout
            &&& server.output_limits == builder.output_limits
            &&& server.dispatch_limits == builder.dispatch_limits
            &&& builder.socket_name is None || builder.socket_path is None
            &&& builder.colors matches Some(colors) ==> colors == 88 || colors == 256
            &&& server.config_file is Some <==> builder.config_file is Some
            &&& builder.config_file matches Some(path) ==> absolute(path, context) == Ok::<
                Seq<u8>,
                ServerConfigurationErrorKind,
            >(server.config_file->0)
            &&& builder.socket_path matches Some(path) ==> absolute(path, context) == Ok::<
                Seq<u8>,
                ServerConfigurationErrorKind,
            >(server.socket_path)
            &&& builder.socket_name matches Some(name) ==> named(name, context) == Ok::<
                Seq<u8>,
                ServerConfigurationErrorKind,
            >(server.socket_path)
            &&& builder.socket_path is None && builder.socket_name is None ==> named(
                encode_utf8("default"@),
                context,
            ) == Ok::<Seq<u8>, ServerConfigurationErrorKind>(server.socket_path)
        },
        ({
            let located = match builder.socket_path {
                Some(path) => absolute(path, context) is Ok,
                None => match builder.socket_name {
                    Some(name) => named(name, context) is Ok,
                    None => named(encode_utf8("default"@), context) is Ok,
                },
            };
            let configured = builder.config_file matches Some(path) ==> absolute(path, context)
                is Ok;
            let colored = builder.colors matches Some(colors) ==> colors == 88 || colors == 256;
            let conflict = builder.socket_name is Some && builder.socket_path is Some;
            &&& built(builder, context) is Ok <==> !conflict && located && configured && colored
            &&& conflict ==> built(builder, context) == Err::<
                server::ServerV,
                ServerConfigurationErrorKind,
            >(ServerConfigurationErrorKind::ConflictingSocketSelectors)
            &&& !conflict && located && configured && !colored ==> built(builder, context) == Err::<
                server::ServerV,
                ServerConfigurationErrorKind,
            >(ServerConfigurationErrorKind::InvalidColors)
            &&& !conflict && located && !configured ==> built(builder, context) == Err::<
                server::ServerV,
                ServerConfigurationErrorKind,
            >(absolute(builder.config_file->0, context)->Err_0)
            &&& !conflict && !located ==> built(builder, context) == Err::<
                server::ServerV,
                ServerConfigurationErrorKind,
            >(
                match builder.socket_path {
                    Some(path) => absolute(path, context)->Err_0,
                    None => match builder.socket_name {
                        Some(name) => named(name, context)->Err_0,
                        None => named(encode_utf8("default"@), context)->Err_0,
                    },
                },
            )
        }),
{
}

/// An absolute path is kept, and a relative one stands under the working
/// directory, with one slash between them. An empty path is refused, and so is
/// a relative one where no working directory is known.
pub proof fn law_relative_paths_stand_under_the_working_directory(
    path: Seq<u8>,
    directory: Seq<u8>,
    root: Option<Seq<u8>>,
)
    ensures
        ({
            let here = ContextV { working_directory: Some(directory), socket_root: root };
            let nowhere = ContextV { working_directory: None, socket_root: root };
            &&& path.len() == 0 ==> absolute(path, here) == Err::<
                Seq<u8>,
                ServerConfigurationErrorKind,
            >(ServerConfigurationErrorKind::EmptyPath) && absolute(path, nowhere) == Err::<
                Seq<u8>,
                ServerConfigurationErrorKind,
            >(ServerConfigurationErrorKind::EmptyPath)
            &&& path.len() > 0 && path[0] == 47 ==> absolute(path, here) == Ok::<
                Seq<u8>,
                ServerConfigurationErrorKind,
            >(path) && absolute(path, nowhere) == Ok::<Seq<u8>, ServerConfigurationErrorKind>(path)
            &&& path.len() > 0 && path[0] != 47 ==> {
                &&& absolute(path, nowhere) == Err::<Seq<u8>, ServerConfigurationErrorKind>(
                    ServerConfigurationErrorKind::WorkingDirectoryUnavailable,
                )
                &&& directory.len() == 0 || directory.last() != 47 ==> absolute(path, here) == Ok::<
                    Seq<u8>,
                    ServerConfigurationErrorKind,
                >(directory + seq![47u8] + path)
                &&& directory.len() > 0 && directory.last() == 47 ==> absolute(path, here) == Ok::<
                    Seq<u8>,
                    ServerConfigurationErrorKind,
                >(directory + path)
            }
        }),
{
}

/// A socket with a name stands in the directory of sockets, with one slash
/// between them. A name that is empty or holds a slash is refused, and so is
/// any where no such directory is known.
pub proof fn law_named_sockets_stand_in_their_directory(
    name: Seq<u8>,
    root: Seq<u8>,
    directory: Option<Seq<u8>>,
)
    ensures
        ({
            let here = ContextV { working_directory: directory, socket_root: Some(root) };
            let nowhere = ContextV { working_directory: directory, socket_root: None };
            let usable = name.len() > 0 && forall|i: int|
                0 <= i < name.len() ==> #[trigger] name[i] != 47;
            &&& !usable ==> named(name, here) == Err::<Seq<u8>, ServerConfigurationErrorKind>(
                ServerConfigurationErrorKind::InvalidSocketName,
            ) && named(name, nowhere) == Err::<Seq<u8>, ServerConfigurationErrorKind>(
                ServerConfigurationErrorKind::InvalidSocketName,
            )
            &&& usable ==> named(name, nowhere) == Err::<Seq<u8>, ServerConfigurationErrorKind>(
                ServerConfigurationErrorKind::SocketRootUnavailable,
            )
            &&& usable && (root.len() == 0 || root.last() != 47) ==> named(name, here) == Ok::<
                Seq<u8>,
                ServerConfigurationErrorKind,
            >(root + seq![47u8] + name)
            &&& usable && root.len() > 0 && root.last() == 47 ==> named(name, here) == Ok::<
                Seq<u8>,
                ServerConfigurationErrorKind,
            >(root + name)
        }),
{
    if !name.contains(47) {
        assert forall|i: int| 0 <= i < name.len() implies #[trigger] name[i] != 47 by {
            assert(name.contains(name[i]));
        }
    }
}

/// A builder that nothing was said to runs `tmux`, waits for half a minute, and
/// has no selector, no configuration file, no colors and no ceiling.
pub proof fn law_builders_start_unconfigured()
    ensures
        ({
            let builder = unconfigured();
            &&& builder.socket_name is None && builder.socket_path is None && builder.config_file
                is None && builder.colors is None
            &&& builder.executable == encode_utf8("tmux"@)
            &&& builder.timeout.seconds == 30 && builder.timeout.nanoseconds == 0
            &&& builder.output_limits.max_stdout_bytes is None
            &&& builder.dispatch_limits.max_in_flight is None
        }),
{
}

/// The rendering of a builder shows which paths and names are set and not what
/// they are.
pub proof fn law_renderings_hide_paths(left: BuilderV, right: BuilderV)
    requires
        left.socket_name is Some <==> right.socket_name is Some,
        left.socket_path is Some <==> right.socket_path is Some,
        left.config_file is Some <==> right.config_file is Some,
        left.colors == right.colors,
        left.timeout == right.timeout,
        left.output_limits == right.output_limits,
        left.dispatch_limits == right.dispatch_limits,
    ensures
        builder_rendering(left) == builder_rendering(right),
        presence(true) == "Some(\"<redacted>\")"@,
        presence(false) == "None"@,
{
}

} // verus!
