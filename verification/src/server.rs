//! What the server decides about a request before a command runs.

use crate::failure;
use crate::failure::{ServerError, ServerFault, ServerResult};
use crate::message::{CommandRequest, Message, PathText, PathView, RequestView};
use crate::path;
use crate::path::convert_win_to_wsl_path;
use crate::protocol;
use crate::protocol::{ProtocolFault, ProtocolResult};
use vstd::prelude::*;

verus! {

/// The directory that a request names on this machine.
pub open spec fn requested_dir(request: RequestView) -> Result<PathView, ServerFault> {
    if request.wsl_mode {
        path::wsl_path(request.working_dir)
    } else {
        Ok(request.working_dir)
    }
}

/// The directory that a request names on this machine.
pub fn working_dir(request: &CommandRequest) -> (r: ServerResult<PathText>)
    ensures
        failure::server_outcome(r) == requested_dir(request@),
{
    if request.wsl_mode {
        convert_win_to_wsl_path(&request.working_dir)
    } else {
        let dir = &request.working_dir;
        Ok(PathText { text: dir.text.clone(), unicode: dir.unicode })
    }
}

/// A request that was received, and the directory that it names on this machine.
pub open spec fn opened(received: Result<RequestView, ProtocolFault>) -> Result<
    (RequestView, PathView),
    ServerFault,
> {
    match received {
        Ok(request) => match requested_dir(request) {
            Ok(dir) => Ok((request, dir)),
            Err(e) => Err(e),
        },
        Err(e) => Err(ServerFault::Protocol(e)),
    }
}

/// Takes what was received as a request and finds the directory that it names.
pub fn open_request(received: ProtocolResult<CommandRequest>) -> (r: ServerResult<
    (CommandRequest, PathText),
>)
    ensures
        match r {
            Ok((request, dir)) => opened(protocol::outcome(received)) == Ok::<
                (RequestView, PathView),
                ServerFault,
            >((request@, dir@)),
            Err(e) => opened(protocol::outcome(received)) == Err::<
                (RequestView, PathView),
                ServerFault,
            >(e@),
        },
{
    let request = match received {
        Ok(request) => request,
        Err(e) => return Err(ServerError::from(e)),
    };
    match working_dir(&request) {
        Ok(dir) => Ok((request, dir)),
        Err(e) => Err(e),
    }
}

/// What `Debug` writes for the path that a text names.
pub uninterp spec fn path_debug(text: Seq<char>) -> Seq<char>;

/// The `Debug` form of a `std::path::Path`. It depends on the path alone.
#[verifier::external_body]
pub(crate) fn quote_path(text: &str) -> (r: String)
    ensures
        r@ == path_debug(text@),
{
    format!("{:?}", std::path::Path::new(text))
}

/// What becomes of a request once its directory was looked for: it runs there, or
/// it is refused with the directory's name, quoted.
pub open spec fn accepted(
    request: RequestView,
    dir: PathView,
    exists: bool,
    quoted: Seq<char>,
) -> Result<RequestView, ServerFault> {
    if exists {
        Ok(RequestView { working_dir: dir, ..request })
    } else {
        Err(
            ServerFault::InvalidPath(
                "The specified working directory does not exist: "@ + quoted,
            ),
        )
    }
}

/// Takes a request or refuses it, with the directory's name already quoted.
pub fn accept_quoted(
    request: CommandRequest,
    dir: PathText,
    exists: bool,
    quoted: &str,
) -> (r: ServerResult<CommandRequest>)
    ensures
        failure::server_outcome(r) == accepted(request@, dir@, exists, quoted@),
{
    if !exists {
        let mut text = "The specified working directory does not exist: ".to_owned();
        text.append(quoted);
        return Err(ServerError::InvalidPath(text));
    }
    let mut request = request;
    request.working_dir = dir;
    Ok(request)
}

/// Takes a request or refuses it. A path that came in a request is Unicode, and
/// so is its WSL form.
pub fn accept_request(request: CommandRequest, dir: PathText, exists: bool) -> (r: ServerResult<
    CommandRequest,
>)
    requires
        dir@.unicode,
    ensures
        failure::server_outcome(r) == accepted(
            request@,
            dir@,
            exists,
            path_debug(dir@.text),
        ),
{
    let quoted = quote_path(dir.text.as_str());
    accept_quoted(request, dir, exists, quoted.as_str())
}

/// The size of a terminal.
#[derive(Debug, Clone, Copy, PartialEq, Eq, Structural)]
pub struct PtySize {
    pub rows: u16,
    pub cols: u16,
    pub pixel_width: u16,
    pub pixel_height: u16,
}

/// A size in characters. The size in pixels is not known.
pub open spec fn character_size(cols: u16, rows: u16) -> PtySize {
    PtySize { rows, cols, pixel_width: 0, pixel_height: 0 }
}

/// The size of the terminal that a command starts with: that of the client's
/// terminal, or 80 columns and 24 rows.
pub open spec fn starting_size(terminal_size: Option<(u16, u16)>) -> PtySize {
    match terminal_size {
        Some((cols, rows)) => character_size(cols, rows),
        None => character_size(80, 24),
    }
}

/// The terminal size for some columns and rows.
pub fn pty_size(cols: u16, rows: u16) -> (r: PtySize)
    ensures
        r == character_size(cols, rows),
{
    PtySize { rows, cols, pixel_width: 0, pixel_height: 0 }
}

/// The size of the terminal that a command starts with.
pub fn initial_size(request: &CommandRequest) -> (r: PtySize)
    ensures
        r == starting_size(request@.terminal_size),
{
    match request.terminal_size {
        Some((cols, rows)) => pty_size(cols, rows),
        None => pty_size(80, 24),
    }
}

/// A program to start, with its arguments, in a directory.
#[derive(Debug, PartialEq, Eq)]
pub struct ShellCommand {
    pub program: String,
    pub args: Vec<String>,
    pub cwd: PathText,
}

/// The contents of a [`ShellCommand`].
pub struct ShellView {
    pub program: Seq<char>,
    pub args: Seq<Seq<char>>,
    pub cwd: PathView,
}

impl View for ShellCommand {
    type V = ShellView;

    open spec fn view(&self) -> ShellView {
        ShellView {
            program: self.program@,
            args: self.args@.map_values(|arg: String| arg@),
            cwd: self.cwd@,
        }
    }
}

/// The program that serves a request: a shell in the directory of the request,
/// which runs the command or, where the request asks for it, is interactive.
pub open spec fn shell_for(request: RequestView) -> ShellView {
    ShellView {
        program: "sh"@,
        args: if request.interactive {
            Seq::empty()
        } else {
            seq!["-c"@, request.command]
        },
        cwd: request.working_dir,
    }
}

/// The program that serves a request.
pub fn shell_command(request: &CommandRequest) -> (r: ShellCommand)
    ensures
        r@ == shell_for(request@),
        !request.interactive ==> r@.args == seq!["-c"@, request.command@],
        request.interactive ==> r@.args.len() == 0,
{
    let mut args: Vec<String> = Vec::new();
    if !request.interactive {
        args.push("-c".to_owned());
        args.push(request.command.clone());
    }
    let dir = &request.working_dir;
    let cwd = PathText { text: dir.text.clone(), unicode: dir.unicode };
    let command = ShellCommand { program: "sh".to_owned(), args, cwd };
    assert(command@.args =~= shell_for(request@).args);
    command
}

/// The directory of a request that came over the wire is Unicode.
pub proof fn law_received_dir_is_unicode(bytes: Seq<u8>)
    requires
        CommandRequest::parsed(bytes) is Ok,
        requested_dir(CommandRequest::parsed(bytes)->Ok_0) is Ok,
    ensures
        requested_dir(CommandRequest::parsed(bytes)->Ok_0)->Ok_0.unicode,
{
}

} // verus!
