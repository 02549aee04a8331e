//! The active workspace of the window manager: one topic, fed by the
//! listener, and one procedure that switches the workspace.

use vstd::prelude::*;
use vstd::string::StringExecFns;

use crate::context::{
    emission, emitted, Action, ActionModel, ContextError, Emission, Outcome, Probe,
    ProbeModel, Reading, RsbarContextContent,
};
use crate::rsbar_context::RsbarContext;
use crate::text::{i32_to_string, signed_decimal_text, str_eq};

verus! {

/// A workspace as the window manager describes it.
#[derive(Debug, PartialEq, Eq)]
pub struct Workspace {
    pub id: i32,
    pub name: String,
    pub monitor: String,
    pub monitor_id: i128,
    pub windows: u16,
    pub fullscreen: bool,
    pub last_window: String,
    pub last_window_title: String,
}

/// The number of the active workspace, as the listener last reported it; -1
/// before the first report.
pub struct HyprlandContext {
    current_workspace: i32,
    attached: bool,
}

/// What a workspace context holds: the number of the active workspace, and
/// whether `init` has been called.
pub struct HyprlandModel {
    pub workspace: i32,
    pub attached: bool,
}

/// The request that switches to the workspace `args`.
pub open spec fn dispatch_request(args: Seq<char>) -> Seq<char> {
    "dispatch workspace "@ + args
}

/// The path of a socket of the window manager instance `signature` below
/// the runtime directory.
pub open spec fn socket_path(runtime_dir: Seq<char>, signature: Seq<char>, file: Seq<char>) -> Seq<
    char,
> {
    runtime_dir + "/hypr/"@ + signature + file
}

fn join_socket_path(runtime_dir: &str, signature: &str, file: &str) -> (path: String)
    ensures
        path@ == socket_path(runtime_dir@, signature@, file@),
{
    let mut path = String::from_str(runtime_dir);
    path.append("/hypr/");
    path.append(signature);
    path.append(file);
    path
}

/// The path of the control socket, which answers requests.
pub fn hyprctl_socket(runtime_dir: &str, signature: &str) -> (path: String)
    ensures
        path@ == socket_path(runtime_dir@, signature@, "/.socket.sock"@),
{
    join_socket_path(runtime_dir, signature, "/.socket.sock")
}

/// The path of the event socket, which the listener follows.
pub fn event_socket(runtime_dir: &str, signature: &str) -> (path: String)
    ensures
        path@ == socket_path(runtime_dir@, signature@, "/.socket2.sock"@),
{
    join_socket_path(runtime_dir, signature, "/.socket2.sock")
}

/// The request that asks the control socket for the active workspace.
pub fn active_workspace_request() -> (request: String)
    ensures
        request@ == "j/activeworkspace"@,
{
    String::from_str("j/activeworkspace")
}

/// The topic and its value at a workspace.
pub open spec fn workspace_snapshot(id: i32) -> Seq<(Seq<char>, Seq<char>)> {
    seq![("workspace"@, signed_decimal_text(id as int))]
}

impl Workspace {
    /// The number of the workspace.
    pub fn number(&self) -> (id: i32)
        ensures
            id == self.id,
    {
        self.id
    }
}

impl HyprlandContext {
    /// The context and the name to register it under, `hyprland`.
    pub fn new() -> (entry: (String, RsbarContext))
        ensures
            entry.0@ == "hyprland"@,
            entry.1 matches RsbarContext::Hyprland(context) && context.model() == (
            HyprlandModel { workspace: -1i32, attached: false }),
    {
        let new_context = HyprlandContext { current_workspace: -1, attached: false };
        ("hyprland".to_owned(), RsbarContext::Hyprland(new_context))
    }
}

impl RsbarContextContent for HyprlandContext {
    type Model = HyprlandModel;

    closed spec fn model(&self) -> HyprlandModel {
        HyprlandModel { workspace: self.current_workspace, attached: self.attached }
    }

    open spec fn wf(m: HyprlandModel) -> bool {
        true
    }

    open spec fn attached(m: HyprlandModel) -> bool {
        m.attached
    }

    open spec fn snapshot(m: HyprlandModel) -> Seq<(Seq<char>, Seq<char>)> {
        workspace_snapshot(m.workspace)
    }

    open spec fn init_wanted(m: HyprlandModel) -> ProbeModel {
        ProbeModel::Nothing
    }

    open spec fn wanted(m: HyprlandModel) -> ProbeModel {
        ProbeModel::Nothing
    }

    /// `init` marks the context as initialised; the caller starts the
    /// listener.
    open spec fn on_init(m: HyprlandModel, reading: Reading) -> Outcome<(), HyprlandModel> {
        Outcome { result: Ok(()), state: HyprlandModel { workspace: m.workspace, attached: true } }
    }

    /// The scheduler's update, with no reading, does nothing. The listener's
    /// report of a workspace is taken in and published.
    open spec fn on_update(m: HyprlandModel, reading: Reading) -> Outcome<bool, HyprlandModel> {
        match reading {
            Reading::Nothing => Outcome { result: Ok(false), state: m },
            Reading::Workspace(id) => Outcome {
                result: if m.attached {
                    Ok(true)
                } else {
                    Err(ContextError::HandlerMissing)
                },
                state: HyprlandModel { workspace: id, attached: m.attached },
            },
            _ => Outcome { result: Err(ContextError::BadReading), state: m },
        }
    }

    /// `setWorkspace` asks the window manager to switch to the workspace
    /// that the argument names. The topic is published afterwards at the
    /// workspace that was last reported; the listener reports the switch.
    open spec fn on_call(m: HyprlandModel, procedure: Seq<char>, args: Seq<char>) -> Outcome<
        ActionModel,
        HyprlandModel,
    > {
        Outcome {
            result: if procedure == "setWorkspace"@ {
                Ok(ActionModel::ControlRequest(dispatch_request(args)))
            } else {
                Err(ContextError::BadProcedure)
            },
            state: m,
        }
    }

    fn init_probe(&self) -> (probe: Probe) {
        Probe::Nothing
    }

    fn init(&mut self, reading: &Reading) -> (r: Result<(), ContextError>) {
        self.attached = true;
        Ok(())
    }

    fn probe(&self) -> (probe: Probe) {
        Probe::Nothing
    }

    fn update(&mut self, reading: &Reading) -> (r: Result<Vec<Emission>, ContextError>) {
        match reading {
            Reading::Nothing => Ok(Vec::new()),
            Reading::Workspace(id) => {
                self.current_workspace = *id;
                let r = self.force_events();
                proof {
                    if r is Ok {
                        assert(emitted(r->Ok_0@).len() == r->Ok_0@.len());
                    }
                }
                r
            },
            _ => Err(ContextError::BadReading),
        }
    }

    fn call(&mut self, procedure: &str, args: &str) -> (r: Result<Action, ContextError>) {
        if str_eq(procedure, "setWorkspace") {
            let mut request = String::from_str("dispatch workspace ");
            request.append(args);
            Ok(Action::ControlRequest(request))
        } else {
            Err(ContextError::BadProcedure)
        }
    }

    fn force_events(&self) -> (r: Result<Vec<Emission>, ContextError>) {
        if !self.attached {
            return Err(ContextError::HandlerMissing);
        }
        let mut list: Vec<Emission> = Vec::new();
        list.push(emission("workspace", i32_to_string(self.current_workspace)));
        assert(emitted(list@) =~= Self::snapshot(self.model()));
        Ok(list)
    }
}

} // verus!
