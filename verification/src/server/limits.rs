//! How much a server handle may read and run at once.

use vstd::prelude::*;
use vstd::string::*;

use crate::decimal;
use crate::decimal::format_unsigned;
use crate::text;
use crate::text::render_struct;

verus! {

/// How many bytes one command may read from tmux.
#[derive(Clone, Copy, Debug, PartialEq, Eq, Structural)]
pub struct OutputLimits {
    /// The most bytes of standard output, or no ceiling.
    pub max_stdout_bytes: Option<usize>,
}

/// How many commands may run at once.
#[derive(Clone, Copy, Debug, PartialEq, Eq, Structural)]
pub struct DispatchLimits {
    /// The most commands under way, or no ceiling.
    pub max_in_flight: Option<usize>,
}

/// Whether a count keeps a ceiling.
pub open spec fn within(ceiling: Option<usize>, count: int) -> bool {
    match ceiling {
        Some(ceiling) => count <= ceiling,
        None => true,
    }
}

impl Default for OutputLimits {
    fn default() -> (limits: Self)
        ensures
            limits == (OutputLimits { max_stdout_bytes: None }),
    {
        OutputLimits { max_stdout_bytes: None }
    }
}

impl OutputLimits {
    /// Bound the bytes of standard output.
    pub fn max_stdout_bytes(self, bytes: usize) -> (limits: OutputLimits)
        ensures
            limits == (OutputLimits { max_stdout_bytes: Some(bytes) }),
    {
        OutputLimits { max_stdout_bytes: Some(bytes) }
    }

    /// Report whether a command may have read so many bytes of standard output.
    pub fn allows(self, bytes: usize) -> (allowed: bool)
        ensures
            allowed == within(self.max_stdout_bytes, bytes as int),
    {
        match self.max_stdout_bytes {
            Some(ceiling) => bytes <= ceiling,
            None => true,
        }
    }

    /// Render the limits.
    pub fn debug_text(self) -> (rendering: String)
        ensures
            rendering@ == output_rendering(self),
    {
        let mut members: Vec<(&'static str, String)> = Vec::new();
        members.push(("max_stdout_bytes", render_ceiling(self.max_stdout_bytes)));
        assert(text::member_views(members@) =~= seq![
            ("max_stdout_bytes"@, ceiling_rendering(self.max_stdout_bytes)),
        ]);
        render_struct("OutputLimits", &members)
    }
}

impl Default for DispatchLimits {
    fn default() -> (limits: Self)
        ensures
            limits == (DispatchLimits { max_in_flight: None }),
    {
        DispatchLimits { max_in_flight: None }
    }
}

impl DispatchLimits {
    /// Bound the commands under way.
    pub fn max_in_flight(self, commands: usize) -> (limits: DispatchLimits)
        ensures
            limits == (DispatchLimits { max_in_flight: Some(commands) }),
    {
        DispatchLimits { max_in_flight: Some(commands) }
    }

    /// Report whether another command may start while so many are under way.
    pub fn admits(self, in_flight: usize) -> (admitted: bool)
        ensures
            admitted == within(self.max_in_flight, in_flight + 1),
    {
        match self.max_in_flight {
            Some(ceiling) => in_flight < ceiling,
            None => true,
        }
    }

    /// Render the limits.
    pub fn debug_text(self) -> (rendering: String)
        ensures
            rendering@ == dispatch_rendering(self),
    {
        let mut members: Vec<(&'static str, String)> = Vec::new();
        members.push(("max_in_flight", render_ceiling(self.max_in_flight)));
        assert(text::member_views(members@) =~= seq![
            ("max_in_flight"@, ceiling_rendering(self.max_in_flight)),
        ]);
        render_struct("DispatchLimits", &members)
    }
}

/// The rendering of a ceiling.
pub open spec fn ceiling_rendering(ceiling: Option<usize>) -> Seq<char> {
    match ceiling {
        Some(ceiling) => "Some("@ + decimal::decimal(ceiling as nat) + ")"@,
        None => "None"@,
    }
}

/// Render a ceiling.
fn render_ceiling(ceiling: Option<usize>) -> (rendering: String)
    ensures
        rendering@ == ceiling_rendering(ceiling),
{
    match ceiling {
        Some(ceiling) => {
            let mut rendering = "Some(".to_owned();
            rendering.append(format_unsigned(ceiling as u128).as_str());
            rendering.append(")");
            rendering
        },
        None => "None".to_owned(),
    }
}

/// The rendering of the limits of what a command reads.
pub open spec fn output_rendering(limits: OutputLimits) -> Seq<char> {
    text::struct_rendering(
        "OutputLimits"@,
        seq![("max_stdout_bytes"@, ceiling_rendering(limits.max_stdout_bytes))],
    )
}

/// The rendering of the limits of what runs at once.
pub open spec fn dispatch_rendering(limits: DispatchLimits) -> Seq<char> {
    text::struct_rendering(
        "DispatchLimits"@,
        seq![("max_in_flight"@, ceiling_rendering(limits.max_in_flight))],
    )
}

/// A count is within a ceiling exactly where it is not above it, and every
/// count is where there is none.
pub proof fn law_ceilings_are_reached_from_below(ceiling: usize, count: int)
    ensures
        within(None, count),
        within(Some(ceiling), ceiling as int),
        !within(Some(ceiling), ceiling + 1),
        within(Some(ceiling), count) <==> ceiling - count >= 0,
{
}

} // verus!
