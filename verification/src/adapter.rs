//! Decisions around the sidecar adapters of platform packages.
use vstd::prelude::*;
use crate::text::{contains, eq_ignore_case, nat_digits, trim};

verus! {

broadcast use vstd::string::group_string_axioms;

/// `should_repair_installed_adapter`: the error says the installed package's
/// adapter declaration is missing, broken or out of step with its runtime.
pub fn should_repair_installed_adapter(error: &str) -> (r: bool)
    ensures
        r == (contains(error@, "平台包缺少 adapter 声明"@) || contains(error@, "平台包 adapter entry 不存在"@)
            || contains(error@, "平台包 manifest 与 runtime adapter 声明不一致"@)),
{
    crate::text::contains_str(error, "平台包缺少 adapter 声明") || crate::text::contains_str(
        error,
        "平台包 adapter entry 不存在",
    ) || crate::text::contains_str(error, "平台包 manifest 与 runtime adapter 声明不一致")
}

/// The error when loading an installed adapter failed and the repair
/// itself failed.
pub fn repair_failed_error(error: &str, repair_error: &str) -> (r: String)
    ensures
        r@ == error@ + "；自动修复平台包失败，请在平台管理中手动修复或重新安装: "@ + repair_error@,
{
    let a = crate::text::concat(error, "；自动修复平台包失败，请在平台管理中手动修复或重新安装: ");
    crate::text::concat(a.as_str(), repair_error)
}

/// The error when an installed adapter still cannot be loaded after the
/// repair.
pub fn repair_retry_error(error: &str, retry_error: &str) -> (r: String)
    ensures
        r@ == error@ + "；自动修复平台包后仍无法加载 adapter: "@ + retry_error@,
{
    let a = crate::text::concat(error, "；自动修复平台包后仍无法加载 adapter: ");
    crate::text::concat(a.as_str(), retry_error)
}

/// `default_antigravity_series_platform_id`: the IDE package when it is
/// installed, else the classic one when it is, else the IDE package.
pub fn default_antigravity_series_platform_id(ide_installed: bool, classic_installed: bool) -> (r: &'static str)
    ensures
        r@ == if !ide_installed && classic_installed {
            "antigravity"@
        } else {
            "antigravity_ide"@
        },
{
    if ide_installed {
        "antigravity_ide"
    } else if classic_installed {
        "antigravity"
    } else {
        "antigravity_ide"
    }
}

/// What identifies a running adapter's executable: its package directory,
/// its path, its size and its modification time (as plain numbers).
#[derive(Debug)]
pub struct AdapterIdentity {
    pub package_dir: String,
    pub executable_path: String,
    pub executable_len: Option<u64>,
    pub executable_modified: Option<(i64, u32)>,
}

/// `adapter_process_matches`: a running adapter still serves the installed
/// package when all of its identity is unchanged.
pub fn adapter_process_matches(process: &AdapterIdentity, installed: &AdapterIdentity) -> (r: bool)
    ensures
        r == (process.package_dir@ == installed.package_dir@ && process.executable_path@ == installed.executable_path@
            && process.executable_len == installed.executable_len && process.executable_modified
            == installed.executable_modified),
{
    crate::text::str_eq(process.package_dir.as_str(), installed.package_dir.as_str()) && crate::text::str_eq(
        process.executable_path.as_str(),
        installed.executable_path.as_str(),
    ) && process.executable_len == installed.executable_len && process.executable_modified
        == installed.executable_modified
}

/// The host's reply to an adapter's event post.
#[derive(Debug)]
pub struct HostEventResponse {
    pub ok: bool,
    pub error: Option<String>,
}

/// What the host has learnt so far about an event post.
#[derive(Debug)]
pub enum HostEventInput {
    /// A request came in: whether it is a POST, its path and its headers.
    Request { is_post: bool, url: String, headers: Vec<(String, String)> },
    /// Reading the body ended: the body, or the reason it failed.
    BodyRead(Result<String, String>),
    /// The body was read as an event: its name, or the parse error.
    BodyParsed(Result<String, String>),
    /// The host application is not available to forward the event.
    AppMissing,
    /// Forwarding the event ended: nothing, or the reason it failed.
    Emitted(Result<(), String>),
}

/// What the host does next with an event post.
#[derive(Debug)]
pub enum HostEventAction {
    /// Read the body, up to the size limit.
    ReadBody,
    /// Read the body as an event.
    ParseBody(String),
    /// Forward the event under this name.
    Emit(String),
    /// Answer with this status and reply.
    Respond(u16, HostEventResponse),
}

/// Whether a header line carries the expected bearer token.
pub open spec fn bearer_header(h: (String, String), token: Seq<char>) -> bool {
    eq_ignore_case(h.0@, "Authorization"@) && h.1@ == "Bearer "@ + token
}

/// `event_request_authorized`: some header carries the bearer token.
pub fn event_request_authorized(headers: &Vec<(String, String)>, token: &str) -> (r: bool)
    ensures
        r == exists|i: int| 0 <= i < headers@.len() && bearer_header(#[trigger] headers@[i], token@),
{
    let expected = crate::text::concat("Bearer ", token);
    let mut i: usize = 0;
    while i < headers.len()
        invariant
            i <= headers@.len(),
            expected@ == "Bearer "@ + token@,
            forall|j: int| 0 <= j < i ==> !bearer_header(#[trigger] headers@[j], token@),
        decreases headers.len() - i,
    {
        let (name, value) = &headers[i];
        if crate::text::eq_ignore_case_exec(name.as_str(), "Authorization") && crate::text::str_eq(
            value.as_str(),
            expected.as_str(),
        ) {
            assert(bearer_header(headers@[i as int], token@));
            return true;
        }
        i += 1;
    }
    false
}

/// The reply that turns an event post down with a message.
pub open spec fn refused(r: HostEventAction, status: u16, message: Seq<char>) -> bool {
    r matches HostEventAction::Respond(s, resp) && s == status && !resp.ok && (resp.error matches Some(m) && m@
        == message)
}

/// The host's handling of an event request, one step at a time: what it does with
/// what it has learnt of an event post. Posts elsewhere than the event path
/// get 404, posts without the token 401, unreadable or unparsable bodies
/// and events without a name 400, a missing host 503, a failed forward 500,
/// and a forwarded event 200.
pub fn host_event_step(input: HostEventInput, token: &str) -> (r: HostEventAction)
    ensures
        match input {
            HostEventInput::Request { is_post, url, headers } => if !is_post || url@ != "/platform-adapter-events"@ {
                refused(r, 404, "platform adapter event route not found"@)
            } else if !exists|i: int| 0 <= i < headers@.len() && bearer_header(#[trigger] headers@[i], token@) {
                refused(r, 401, "platform adapter event token invalid"@)
            } else {
                r is ReadBody
            },
            HostEventInput::BodyRead(Err(e)) => refused(r, 400, "read platform adapter event failed: "@ + e@),
            HostEventInput::BodyRead(Ok(body)) => r matches HostEventAction::ParseBody(b) && b@ == body@,
            HostEventInput::BodyParsed(Err(e)) => refused(r, 400, "parse platform adapter event failed: "@ + e@),
            HostEventInput::BodyParsed(Ok(name)) => if trim(name@).len() == 0 {
                refused(r, 400, "platform adapter event name is empty"@)
            } else {
                r matches HostEventAction::Emit(n) && n@ == trim(name@)
            },
            HostEventInput::AppMissing => refused(r, 503, "host app handle not ready"@),
            HostEventInput::Emitted(Err(e)) => refused(r, 500, "emit platform adapter event failed: "@ + e@),
            HostEventInput::Emitted(Ok(())) => r matches HostEventAction::Respond(s, resp) && s == 200 && resp.ok
                && resp.error is None,
        },
{
    match input {
        HostEventInput::Request { is_post, url, headers } => {
            if !is_post || !crate::text::str_eq(url.as_str(), "/platform-adapter-events") {
                return HostEventAction::Respond(
                    404,
                    HostEventResponse { ok: false, error: Some("platform adapter event route not found".to_string()) },
                );
            }
            if !event_request_authorized(&headers, token) {
                return HostEventAction::Respond(
                    401,
                    HostEventResponse { ok: false, error: Some("platform adapter event token invalid".to_string()) },
                );
            }
            HostEventAction::ReadBody
        },
        HostEventInput::BodyRead(Err(e)) => HostEventAction::Respond(
            400,
            HostEventResponse {
                ok: false,
                error: Some(crate::text::concat("read platform adapter event failed: ", e.as_str())),
            },
        ),
        HostEventInput::BodyRead(Ok(body)) => HostEventAction::ParseBody(body),
        HostEventInput::BodyParsed(Err(e)) => HostEventAction::Respond(
            400,
            HostEventResponse {
                ok: false,
                error: Some(crate::text::concat("parse platform adapter event failed: ", e.as_str())),
            },
        ),
        HostEventInput::BodyParsed(Ok(name)) => {
            let trimmed = crate::text::trimmed(name.as_str());
            if trimmed.len() == 0 {
                return HostEventAction::Respond(
                    400,
                    HostEventResponse { ok: false, error: Some("platform adapter event name is empty".to_string()) },
                );
            }
            HostEventAction::Emit(crate::text::string_of(&trimmed))
        },
        HostEventInput::AppMissing => HostEventAction::Respond(
            503,
            HostEventResponse { ok: false, error: Some("host app handle not ready".to_string()) },
        ),
        HostEventInput::Emitted(Err(e)) => HostEventAction::Respond(
            500,
            HostEventResponse {
                ok: false,
                error: Some(crate::text::concat("emit platform adapter event failed: ", e.as_str())),
            },
        ),
        HostEventInput::Emitted(Ok(())) => HostEventAction::Respond(200, HostEventResponse { ok: true, error: None }),
    }
}

/// Starting an adapter is refused when it speaks another protocol.
pub fn check_adapter_protocol(protocol: &str) -> (r: Result<(), String>)
    ensures
        protocol@ == "http-json-v1"@ ==> r is Ok,
        protocol@ != "http-json-v1"@ ==> (r matches Err(m) && m@ == "平台 adapter 协议不支持: "@ + protocol@),
{
    if crate::text::str_eq(protocol, "http-json-v1") {
        Ok(())
    } else {
        Err(crate::text::concat("平台 adapter 协议不支持: ", protocol))
    }
}

/// The first line an adapter prints once it has started.
#[derive(Debug)]
pub struct AdapterBootstrap {
    pub ok: bool,
    pub protocol: String,
    pub host: String,
    pub port: u16,
    pub token: String,
}

/// Where a running adapter takes calls, and its token.
#[derive(Debug)]
pub struct AdapterEndpoint {
    pub url: String,
    pub token: String,
}

/// The handshake of a started adapter: it must report success in the
/// package's protocol, on 127.0.0.1 and with a token; its endpoint is then
/// `http://<host>:<port>/rpc`.
pub fn adapter_endpoint_from_bootstrap(bootstrap: AdapterBootstrap, protocol: &str) -> (r: Result<
    AdapterEndpoint,
    String,
>)
    ensures
        !bootstrap.ok || bootstrap.protocol@ != protocol@ ==> (r matches Err(m) && m@ == "平台 adapter 启动握手失败"@),
        bootstrap.ok && bootstrap.protocol@ == protocol@ && (bootstrap.host@ != "127.0.0.1"@ || trim(
            bootstrap.token@,
        ).len() == 0) ==> (r matches Err(m) && m@ == "平台 adapter 启动握手地址或 token 非法"@),
        bootstrap.ok && bootstrap.protocol@ == protocol@ && bootstrap.host@ == "127.0.0.1"@ && trim(
            bootstrap.token@,
        ).len() > 0 ==> (r matches Ok(e) && e.url@ == "http://"@ + bootstrap.host@ + ":"@ + nat_digits(
            bootstrap.port as nat,
        ) + "/rpc"@ && e.token@ == bootstrap.token@),
{
    if !bootstrap.ok || !crate::text::str_eq(bootstrap.protocol.as_str(), protocol) {
        return Err("平台 adapter 启动握手失败".to_string());
    }
    if !crate::text::str_eq(bootstrap.host.as_str(), "127.0.0.1") || crate::text::trimmed(bootstrap.token.as_str()).len()
        == 0 {
        return Err("平台 adapter 启动握手地址或 token 非法".to_string());
    }
    let a = crate::text::concat("http://", bootstrap.host.as_str());
    let b = crate::text::concat(a.as_str(), ":");
    let port = crate::text::u32_text(bootstrap.port as u32);
    let c = crate::text::concat(b.as_str(), port.as_str());
    let url = crate::text::concat(c.as_str(), "/rpc");
    Ok(AdapterEndpoint { url, token: bootstrap.token })
}

/// Why a call to an adapter failed: it could not be reached, or it answered
/// wrongly.
#[derive(Debug)]
pub enum AdapterRequestError {
    Transport(String),
    Protocol(String),
}

/// The message of either kind of failure.
pub open spec fn request_error_message(e: AdapterRequestError) -> Seq<char> {
    match e {
        AdapterRequestError::Transport(m) => m@,
        AdapterRequestError::Protocol(m) => m@,
    }
}

impl AdapterRequestError {
    /// The message of either kind of failure.
    pub fn message(&self) -> (r: &String)
        ensures
            r@ == request_error_message(*self),
    {
        match self {
            AdapterRequestError::Transport(m) => m,
            AdapterRequestError::Protocol(m) => m,
        }
    }
}

/// What an adapter answers to a call: success with data (as JSON text), or
/// an error message.
#[derive(Debug)]
pub struct AdapterResponse {
    pub ok: bool,
    pub data: Option<String>,
    pub error_message: Option<String>,
}

/// A request posted to an adapter, after the reply came: a
/// status that is no success is a protocol error naming it, as is a reply
/// that cannot be read; a failed call gives its message (or a general one);
/// a successful one its data, `null` when there is none.
pub fn adapter_reply_result(status_success: bool, status_text: &str, reply: Result<AdapterResponse, String>) -> (r: Result<
    String,
    AdapterRequestError,
>)
    ensures
        !status_success ==> (r matches Err(AdapterRequestError::Protocol(m)) && m@ == "平台 adapter 返回 HTTP "@
            + status_text@),
        status_success ==> match reply {
            Err(e) => r matches Err(AdapterRequestError::Protocol(m)) && m@ == "解析平台 adapter 响应失败: "@ + e@,
            Ok(resp) => if resp.ok {
                r matches Ok(d) && d@ == match resp.data {
                    Some(x) => x@,
                    None => "null"@,
                }
            } else {
                r matches Err(AdapterRequestError::Protocol(m)) && m@ == match resp.error_message {
                    Some(x) => x@,
                    None => "平台 adapter 调用失败"@,
                }
            },
        },
{
    if !status_success {
        return Err(AdapterRequestError::Protocol(crate::text::concat("平台 adapter 返回 HTTP ", status_text)));
    }
    let resp = match reply {
        Ok(resp) => resp,
        Err(e) => {
            return Err(AdapterRequestError::Protocol(crate::text::concat("解析平台 adapter 响应失败: ", e.as_str())));
        },
    };
    if resp.ok {
        return Ok(
            match resp.data {
                Some(d) => d,
                None => "null".to_string(),
            },
        );
    }
    Err(
        AdapterRequestError::Protocol(
            match resp.error_message {
                Some(m) => m,
                None => "平台 adapter 调用失败".to_string(),
            },
        ),
    )
}

/// What a call to an adapter does after the first
/// try: a transport failure restarts the adapter and tries once more.
pub fn should_retry_adapter_call(error: &AdapterRequestError) -> (r: bool)
    ensures
        r == (error is Transport),
{
    match error {
        AdapterRequestError::Transport(_) => true,
        AdapterRequestError::Protocol(_) => false,
    }
}

/// The error of a call whose retry failed too.
pub fn adapter_retry_error(error: &str, retry_error: &AdapterRequestError) -> (r: String)
    ensures
        r@ == error@ + "；重启平台 adapter 后重试仍失败: "@ + request_error_message(*retry_error),
{
    let a = crate::text::concat(error, "；重启平台 adapter 后重试仍失败: ");
    crate::text::concat(a.as_str(), retry_error.message().as_str())
}

} // verus!
