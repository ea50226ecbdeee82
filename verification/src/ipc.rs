//! Remote control: commands, responses and how the control tool behaves.
use crate::number::to_decimal;
#[allow(unused_imports)]
use crate::number::decimal;
use crate::text::owned;
#[allow(unused_imports)]
use crate::text::{opt_text, texts};
use vstd::prelude::*;

verus! {

/// What a running editor can be asked to do.
#[derive(Debug)]
pub enum Command {
    Open { path: String, line: Option<usize>, column: Option<usize> },
    Show,
    Hide,
    Toggle,
    Status,
    Quit,
}

/// What a response can carry.
#[derive(Debug)]
pub enum ResponseData {
    Status { visible: bool, open_documents: usize, focused_document: Option<String> },
}

/// The answer to a command.
#[derive(Debug)]
pub struct Response {
    pub success: bool,
    pub error: Option<String>,
    pub data: Option<ResponseData>,
}

/// The state of an editor, in mathematical terms.
#[verifier::ext_equal]
pub struct StatusModel {
    pub visible: bool,
    pub open_documents: nat,
    pub focused_document: Option<Seq<char>>,
}

/// A response in mathematical terms.
#[verifier::ext_equal]
pub struct ResponseModel {
    pub success: bool,
    pub error: Option<Seq<char>>,
    pub data: Option<StatusModel>,
}

impl View for ResponseData {
    type V = StatusModel;

    open spec fn view(&self) -> StatusModel {
        match *self {
            ResponseData::Status { visible, open_documents, focused_document } => StatusModel {
                visible,
                open_documents: open_documents as nat,
                focused_document: opt_text(focused_document),
            },
        }
    }
}

impl View for Response {
    type V = ResponseModel;

    open spec fn view(&self) -> ResponseModel {
        ResponseModel {
            success: self.success,
            error: opt_text(self.error),
            data: match self.data {
                Some(data) => Some(data@),
                None => None,
            },
        }
    }
}

/// A plain success.
pub open spec fn ok_response() -> ResponseModel {
    ResponseModel { success: true, error: None, data: None }
}

/// A failure.
pub open spec fn err_response(message: Seq<char>) -> ResponseModel {
    ResponseModel { success: false, error: Some(message), data: None }
}

impl Response {
    /// A plain success.
    pub fn ok() -> (out: Self)
        ensures
            out@ == ok_response(),
    {
        Response { success: true, error: None, data: None }
    }

    /// A success that carries data.
    pub fn ok_with_data(data: ResponseData) -> (out: Self)
        ensures
            out@ == (ResponseModel { success: true, error: None, data: Some(data@) }),
    {
        Response { success: true, error: None, data: Some(data) }
    }

    /// A failure.
    pub fn err(message: String) -> (out: Self)
        ensures
            out@ == err_response(message@),
    {
        Response { success: false, error: Some(message), data: None }
    }
}

/// Why a request cannot be carried out.
#[derive(Debug, Clone, Copy, PartialEq, Eq, Structural)]
pub enum RequestProblem {
    /// Nothing was sent.
    Empty,
    /// What was sent is no command.
    Invalid,
    /// The request could not be read.
    Unreadable,
}

/// The answer to such a request.
pub open spec fn rejection(problem: RequestProblem, detail: Seq<char>) -> ResponseModel {
    err_response(
        match problem {
            RequestProblem::Empty => "empty IPC request"@,
            RequestProblem::Invalid => "invalid IPC payload: "@ + detail,
            RequestProblem::Unreadable => "failed to read IPC payload: "@ + detail,
        },
    )
}

/// The answer to a request that cannot be carried out.
pub fn reject(problem: RequestProblem, detail: &str) -> (out: Response)
    ensures
        out@ == rejection(problem, detail@),
{
    let message = match problem {
        RequestProblem::Empty => owned("empty IPC request"),
        RequestProblem::Invalid => {
            let mut text = owned("invalid IPC payload: ");
            text.append(detail);
            text
        },
        RequestProblem::Unreadable => {
            let mut text = owned("failed to read IPC payload: ");
            text.append(detail);
            text
        },
    };
    Response::err(message)
}

/// Why no answer came from the editor.
#[derive(Debug, Clone, Copy, PartialEq, Eq, Structural)]
pub enum IpcFailure {
    NotFound,
    ConnectionRefused,
    ConnectionReset,
    TimedOut,
    UnexpectedEof,
    BrokenPipe,
    Other,
}

/// The failure means that no editor is listening.
pub open spec fn nobody_listens(failure: IpcFailure) -> bool {
    !(failure is Other)
}

/// Whether a failure means that no editor is listening.
pub fn is_ipc_connect_error(failure: IpcFailure) -> (yes: bool)
    ensures
        yes == nobody_listens(failure),
{
    match failure {
        IpcFailure::NotFound => true,
        IpcFailure::ConnectionRefused => true,
        IpcFailure::ConnectionReset => true,
        IpcFailure::TimedOut => true,
        IpcFailure::UnexpectedEof => true,
        IpcFailure::BrokenPipe => true,
        IpcFailure::Other => false,
    }
}

impl Command {
    /// The commands for which an editor may be started.
    pub open spec fn starts_editor(self) -> bool {
        self is Open || self is Show || self is Status
    }

    /// Whether an editor may be started for this command.
    pub fn can_autostart(&self) -> (yes: bool)
        ensures
            yes == self.starts_editor(),
    {
        match self {
            Command::Open { path, line, column } => true,
            Command::Show => true,
            Command::Status => true,
            Command::Hide => false,
            Command::Toggle => false,
            Command::Quit => false,
        }
    }
}

/// How often a started editor is tried.
pub const MAX_ATTEMPTS: u32 = 20;

/// The control tool on its way to an answer.
#[derive(Debug, Clone, Copy, PartialEq, Eq, Structural)]
pub enum Delivery {
    /// The command is sent for the first time.
    First,
    /// An editor was started; so many attempts to reach it have failed.
    Waiting { failed: u32 },
}

/// What the control tool does next.
#[derive(Debug, Clone, Copy, PartialEq, Eq, Structural)]
pub enum DeliveryStep {
    /// Report the failure.
    GiveUp,
    /// Start an editor, then send again.
    StartEditor,
    /// Wait a moment, then send again.
    Retry { failed: u32 },
    /// Wait a moment, then report the failure.
    Expire,
}

/// What follows a failed attempt.
pub open spec fn after_failure(
    state: Delivery,
    failure: IpcFailure,
    allow_autostart: bool,
) -> DeliveryStep {
    if !nobody_listens(failure) {
        DeliveryStep::GiveUp
    } else {
        match state {
            Delivery::First => if allow_autostart {
                DeliveryStep::StartEditor
            } else {
                DeliveryStep::GiveUp
            },
            Delivery::Waiting { failed } => if failed + 1 < MAX_ATTEMPTS {
                DeliveryStep::Retry { failed: (failed + 1) as u32 }
            } else {
                DeliveryStep::Expire
            },
        }
    }
}

/// What follows a failed attempt.
pub fn next_step(state: Delivery, failure: IpcFailure, allow_autostart: bool) -> (out: DeliveryStep)
    ensures
        out == after_failure(state, failure, allow_autostart),
{
    if !is_ipc_connect_error(failure) {
        return DeliveryStep::GiveUp;
    }
    match state {
        Delivery::First => {
            if allow_autostart {
                DeliveryStep::StartEditor
            } else {
                DeliveryStep::GiveUp
            }
        },
        Delivery::Waiting { failed } => {
            if failed < MAX_ATTEMPTS - 1 {
                DeliveryStep::Retry { failed: failed + 1 }
            } else {
                DeliveryStep::Expire
            }
        },
    }
}

/// A started editor is tried at most twenty times.
pub proof fn law_waiting_ends(failed: u32, failure: IpcFailure, allow_autostart: bool)
    ensures
        match after_failure(Delivery::Waiting { failed }, failure, allow_autostart) {
            DeliveryStep::Retry { failed: next } => next == failed + 1 && next < MAX_ATTEMPTS,
            DeliveryStep::StartEditor => false,
            _ => true,
        },
{
}

/// The words for yes and no.
pub open spec fn bool_text(b: bool) -> Seq<char> {
    if b {
        "true"@
    } else {
        "false"@
    }
}

/// A response as the lines that a user reads.
pub open spec fn response_lines(r: ResponseModel) -> Seq<Seq<char>> {
    match r.data {
        Some(status) => seq![
            "visible: "@ + bool_text(status.visible),
            "open_documents: "@ + decimal(status.open_documents),
            "focused_document: "@ + match status.focused_document {
                Some(path) => path,
                None => "[scratch]"@,
            },
        ],
        None => if r.success {
            seq!["ok"@]
        } else {
            seq![
                "error: "@ + match r.error {
                    Some(message) => message,
                    None => "request failed without message"@,
                },
            ]
        },
    }
}

/// A response as the lines that a user reads.
pub fn human_response(response: &Response) -> (out: Vec<String>)
    ensures
        texts(out@) == response_lines(response@),
{
    let mut out: Vec<String> = Vec::new();
    match &response.data {
        Some(ResponseData::Status { visible, open_documents, focused_document }) => {
            let mut first = owned("visible: ");
            first.append(
                if *visible {
                    "true"
                } else {
                    "false"
                },
            );
            let mut second = owned("open_documents: ");
            second.append(to_decimal(*open_documents as u128).as_str());
            let mut third = owned("focused_document: ");
            match focused_document {
                Some(path) => third.append(path.as_str()),
                None => third.append("[scratch]"),
            }
            out.push(first);
            out.push(second);
            out.push(third);
        },
        None => {
            if response.success {
                out.push(owned("ok"));
            } else {
                let mut line = owned("error: ");
                match &response.error {
                    Some(message) => line.append(message.as_str()),
                    None => line.append("request failed without message"),
                }
                out.push(line);
            }
        },
    }
    assert(texts(out@) =~= response_lines(response@));
    out
}

/// The error that the control tool ends with, if the request failed.
pub fn failure_text(response: &Response) -> (out: Option<String>)
    ensures
        opt_text(out) == if response@.success {
            None
        } else {
            Some(
                match response@.error {
                    Some(message) => message,
                    None => "request failed"@,
                },
            )
        },
{
    if response.success {
        return None;
    }
    match &response.error {
        Some(message) => Some(owned(message.as_str())),
        None => Some(owned("request failed")),
    }
}

/// An editor is started at most once, only where that is allowed and only
/// because nobody listens; any other failure is reported at once.
pub proof fn law_when_an_editor_is_started(
    state: Delivery,
    failure: IpcFailure,
    allow_autostart: bool,
)
    ensures
        after_failure(state, failure, allow_autostart) is StartEditor <==> state is First
            && allow_autostart && !(failure is Other),
        after_failure(state, failure, allow_autostart) is GiveUp <==> failure is Other || (state
            is First && !allow_autostart),
        state is Waiting && !(failure is Other) && state->failed < 19 ==> after_failure(
            state,
            failure,
            allow_autostart,
        ) == (DeliveryStep::Retry { failed: (state->failed + 1) as u32 }),
        state is Waiting && !(failure is Other) && state->failed >= 19 ==> after_failure(
            state,
            failure,
            allow_autostart,
        ) is Expire,
{
}

/// Users read the message of a failure and every part of a state.
pub proof fn law_lines_tell_everything(r: ResponseModel)
    ensures
        r.data is None && r.success ==> response_lines(r) == seq!["ok"@],
        r.data is None && !r.success ==> response_lines(r).len() == 1,
        r.data is None && !r.success && r.error is Some ==> response_lines(r)[0] == "error: "@
            + r.error->0,
        r.data is Some ==> ({
            let lines = response_lines(r);
            &&& lines.len() == 3
            &&& r.data->0.visible ==> lines[0] == "visible: "@ + "true"@
            &&& !r.data->0.visible ==> lines[0] == "visible: "@ + "false"@
            &&& lines[1] == "open_documents: "@ + decimal(r.data->0.open_documents)
            &&& r.data->0.focused_document is Some ==> lines[2] == "focused_document: "@
                + r.data->0.focused_document->0
            &&& r.data->0.focused_document is None ==> lines[2] == "focused_document: "@
                + "[scratch]"@
        }),
{
}

/// A request that cannot be carried out is answered by a failure that ends in
/// the reason.
pub proof fn law_rejections_give_the_reason(problem: RequestProblem, detail: Seq<char>)
    ensures
        !rejection(problem, detail).success,
        rejection(problem, detail).data is None,
        rejection(problem, detail).error is Some,
        problem is Invalid || problem is Unreadable ==> ({
            let message = rejection(problem, detail).error->0;
            &&& message.len() > detail.len()
            &&& message.skip(message.len() - detail.len()) == detail
        }),
{
    reveal_strlit("invalid IPC payload: ");
    reveal_strlit("failed to read IPC payload: ");
    assert(("invalid IPC payload: "@ + detail).skip("invalid IPC payload: "@.len() as int)
        =~= detail);
    assert(("failed to read IPC payload: "@ + detail).skip(
        "failed to read IPC payload: "@.len() as int,
    ) =~= detail);
}

} // verus!
