//! `synctus`, the management tool, and the arguments of the daemon: what is
//! asked, what is shown and what the answers do.
//!
//! Typing `synctus` with no arguments opens a numbered menu. That is the whole
//! interface: read the numbers, type one, press enter. No flags to remember, no
//! subcommand tree to explore, and it works over a bare SSH session with no
//! terminal capabilities beyond printing text.
//!
//! Deliberately *not* a full-screen interface. A relay server is administered over
//! SSH on a connection that may be slow, and plain lines can be copied into a bug
//! report. Non-interactive subcommands exist too, so the same tool can be used
//! from a script.

use vstd::prelude::*;

use crate::admin::{
    duration_text, DeviceInfo, Request, Response, RoomInfo, Status, DEFAULT_SOCKET,
};
use crate::debug::{response_text, show_response};
use crate::hub::Hub;
use crate::model::option_text;
use crate::server_config::{non_empty, path_or_none, ServerConfig};
use crate::service::{RunState, ServiceManager};
use crate::text::{
    after_prefix, chars_of, decimal, decimal_text, find_last, parse_u64, same, say, strip_prefix,
    text_of, texts, trim, trimmed, trimmed_text, unsigned,
};
use crate::VERSION;

verus! {

/// Where the installer puts the config.
pub const DEFAULT_CONFIG: &'static str = "/etc/synctus/server.toml";

/// Version of the running build, used by both programs and reported over the
/// admin socket.
pub fn version() -> (r: &'static str)
    ensures
        r@ == VERSION@,
{
    VERSION
}

/// A value that overrides a default, unless it is blank: an exported-but-empty
/// variable is a common shell accident.
pub open spec fn overridden(value: Option<&str>, default: Seq<char>) -> Seq<char> {
    match value {
        Some(v) => if trim(v@).len() > 0 {
            trim(v@)
        } else {
            default
        },
        None => default,
    }
}

fn resolve(value: Option<&str>, default: &str) -> (r: String)
    ensures
        r@ == overridden(value, default@),
{
    match value {
        Some(v) => {
            let t = trimmed_text(v);
            if t.as_str().is_empty() {
                default.to_string()
            } else {
                t
            }
        },
        None => default.to_string(),
    }
}

/// The path of the configuration, by an override.
pub fn resolve_config_path(override_value: Option<&str>) -> (r: String)
    ensures
        r@ == overridden(override_value, DEFAULT_CONFIG@),
{
    resolve(override_value, DEFAULT_CONFIG)
}

/// The path of the admin socket, by an override.
pub fn resolve_socket_path(override_value: Option<&str>) -> (r: String)
    ensures
        r@ == overridden(override_value, DEFAULT_SOCKET@),
{
    resolve(override_value, DEFAULT_SOCKET)
}

/// The directory of the desktop's files, by an override; none where neither an
/// override nor the platform names one.
pub fn resolve_config_dir(override_value: Option<&str>, standard: Option<&str>) -> (r: Option<
    String,
>)
    ensures
        r is None <==> standard is None && (override_value matches Some(v) ==> trim(v@).len() == 0),
        r matches Some(dir) ==> dir@ == (match standard {
            Some(s) => overridden(override_value, s@),
            None => trim(override_value->0@),
        }),
{
    match standard {
        Some(s) => Some(resolve(override_value, s)),
        None => match override_value {
            Some(v) => {
                let t = trimmed_text(v);
                if t.as_str().is_empty() {
                    None
                } else {
                    Some(t)
                }
            },
            None => None,
        },
    }
}

/// What the management tool is asked to do.
#[derive(Debug)]
pub enum Task {
    Menu,
    Status,
    Start,
    Stop,
    Restart,
    Logs,
    Config,
    Check,
    Help,
    Version,
    /// No such command.
    Unknown(String),
}

/// What the first argument asks for.
pub open spec fn asks_for(arg: Seq<char>, task: Task) -> bool {
    if arg == "status"@ {
        task == Task::Status
    } else if arg == "start"@ {
        task == Task::Start
    } else if arg == "stop"@ {
        task == Task::Stop
    } else if arg == "restart"@ {
        task == Task::Restart
    } else if arg == "logs"@ {
        task == Task::Logs
    } else if arg == "config"@ {
        task == Task::Config
    } else if arg == "check"@ {
        task == Task::Check
    } else if arg == "-h"@ || arg == "--help"@ || arg == "help"@ {
        task == Task::Help
    } else if arg == "-V"@ || arg == "--version"@ {
        task == Task::Version
    } else {
        task matches Task::Unknown(other) && other@ == arg
    }
}

/// What the arguments ask for. No arguments is the intended path: the menu opens,
/// but where the input is piped, waiting for a choice would hang, so help is shown
/// instead.
pub fn task(arg: Option<&str>, interactive: bool) -> (r: Task)
    ensures
        match arg {
            None => r == (if interactive {
                Task::Menu
            } else {
                Task::Help
            }),
            Some(a) => asks_for(a@, r),
        },
{
    let a = match arg {
        None => {
            return if interactive {
                Task::Menu
            } else {
                Task::Help
            };
        },
        Some(a) => a,
    };
    if same(a, "status") {
        Task::Status
    } else if same(a, "start") {
        Task::Start
    } else if same(a, "stop") {
        Task::Stop
    } else if same(a, "restart") {
        Task::Restart
    } else if same(a, "logs") {
        Task::Logs
    } else if same(a, "config") {
        Task::Config
    } else if same(a, "check") {
        Task::Check
    } else if same(a, "-h") || same(a, "--help") || same(a, "help") {
        Task::Help
    } else if same(a, "-V") || same(a, "--version") {
        Task::Version
    } else {
        Task::Unknown(a.to_string())
    }
}

// ---------------------------------------------------------------- the menu

/// What was chosen from the menu.
#[derive(Debug)]
pub enum Choice {
    /// A blank line is a common accident; the menu is shown again.
    Again,
    Status,
    Logs,
    Start,
    Stop,
    Restart,
    /// Turn starting at boot on or off.
    Autostart { enable: bool },
    Edit,
    Check,
    ClientInfo,
    Quit,
    /// There is no such entry.
    Nothing(String),
}

/// What was chosen from the menu, as it was shown.
pub open spec fn is_choice(
    text: Seq<char>,
    state: RunState,
    enabled: Option<bool>,
    choice: Choice,
) -> bool {
    if text.len() == 0 {
        choice == Choice::Again
    } else if text == "1"@ {
        choice == Choice::Status
    } else if text == "2"@ {
        choice == Choice::Logs
    } else if text == "3"@ {
        choice == if state == RunState::Running {
            Choice::Stop
        } else {
            Choice::Start
        }
    } else if text == "4"@ {
        choice == Choice::Restart
    } else if text == "5"@ {
        choice == Choice::Autostart { enable: enabled != Some(true) }
    } else if text == "6"@ {
        choice == Choice::Edit
    } else if text == "7"@ {
        choice == Choice::Check
    } else if text == "8"@ {
        choice == Choice::ClientInfo
    } else if text == "0"@ || text == "q"@ || text == "quit"@ || text == "exit"@ {
        choice == Choice::Quit
    } else {
        choice matches Choice::Nothing(other) && other@ == text
    }
}

/// What was chosen from the menu.
pub fn choose_entry(text: &str, state: RunState, enabled: Option<bool>) -> (r: Choice)
    ensures
        is_choice(text@, state, enabled, r),
{
    if text.is_empty() {
        Choice::Again
    } else if same(text, "1") {
        Choice::Status
    } else if same(text, "2") {
        Choice::Logs
    } else if same(text, "3") {
        if state == RunState::Running {
            Choice::Stop
        } else {
            Choice::Start
        }
    } else if same(text, "4") {
        Choice::Restart
    } else if same(text, "5") {
        Choice::Autostart {
            enable: match enabled {
                Some(on) => !on,
                None => true,
            },
        }
    } else if same(text, "6") {
        Choice::Edit
    } else if same(text, "7") {
        Choice::Check
    } else if same(text, "8") {
        Choice::ClientInfo
    } else if same(text, "0") || same(text, "q") || same(text, "quit") || same(text, "exit") {
        Choice::Quit
    } else {
        Choice::Nothing(text.to_string())
    }
}

pub open spec fn menu_text(state: RunState, enabled: Option<bool>) -> Seq<Seq<char>> {
    seq![
        ""@,
        "  1) 查看状态与在线设备"@,
        "  2) 查看日志"@,
        "  3) "@ + (if state == RunState::Running {
            "停止服务"@
        } else {
            "启动服务"@
        }),
        "  4) 重启服务"@,
        "  5) "@ + (if enabled == Some(true) {
            "关闭"@
        } else {
            "开启"@
        }) + "开机自启"@,
        "  6) 修改配置"@,
        "  7) 检查配置"@,
        "  8) 显示客户端连接信息"@,
        "  0) 退出"@,
        ""@,
    ]
}

/// The entries of the menu.
pub fn menu_lines(state: RunState, enabled: Option<bool>) -> (r: Vec<String>)
    ensures
        texts(r@) == menu_text(state, enabled),
{
    let mut out: Vec<String> = Vec::new();
    let run = if state == RunState::Running {
        "停止服务"
    } else {
        "启动服务"
    };
    let on = match enabled {
        Some(on) => on,
        None => false,
    };
    let boot = if on {
        "关闭"
    } else {
        "开启"
    };
    say(&mut out, "".to_string());
    say(&mut out, "  1) 查看状态与在线设备".to_string());
    say(&mut out, "  2) 查看日志".to_string());
    say(&mut out, "  3) ".to_string().concat(run));
    say(&mut out, "  4) 重启服务".to_string());
    say(&mut out, "  5) ".to_string().concat(boot).concat("开机自启"));
    say(&mut out, "  6) 修改配置".to_string());
    say(&mut out, "  7) 检查配置".to_string());
    say(&mut out, "  8) 显示客户端连接信息".to_string());
    say(&mut out, "  0) 退出".to_string());
    say(&mut out, "".to_string());
    assert(texts(out@) =~= menu_text(state, enabled));
    out
}

pub open spec fn header_text(
    manager: ServiceManager,
    state: RunState,
    enabled: Option<bool>,
    status: Option<&Status>,
) -> Seq<Seq<char>> {
    let mark = match state {
        RunState::Running => "\x1b[32m● "@,
        RunState::Stopped => "\x1b[31m○ "@,
        RunState::Unknown => "\x1b[33m? "@,
    };
    let boot = match enabled {
        Some(true) => "已开启"@,
        Some(false) => "已关闭"@,
        None => "未知"@,
    };
    seq![
        "\x1b[1mSynctus 中继服务器\x1b[0m  "@ + VERSION@,
        "状态 "@ + mark + state.name() + "\x1b[0m　管理方式 "@ + manager.name() + "　开机自启 "@
            + boot,
    ] + (match status {
        Some(s) => seq![
            "运行 "@ + duration_text(s.uptime_secs as nat) + "　房间 "@ + decimal(s.rooms as nat)
                + "　设备 "@ + decimal(s.devices as nat) + "　监听 "@ + s.bind@ + (if s.tls {
                "　TLS 已启用"@
            } else {
                "　\x1b[33m未启用 TLS\x1b[0m"@
            }),
        ],
        None => Seq::empty(),
    })
}

/// The head of the menu. Live numbers when the daemon is reachable; silent when it
/// is not, since the state line already says that the service is down.
pub fn header_lines(
    manager: ServiceManager,
    state: RunState,
    enabled: Option<bool>,
    status: Option<&Status>,
) -> (r: Vec<String>)
    ensures
        texts(r@) == header_text(manager, state, enabled, status),
{
    let mut out: Vec<String> = Vec::new();
    let mark = match state {
        RunState::Running => "\x1b[32m● ",
        RunState::Stopped => "\x1b[31m○ ",
        RunState::Unknown => "\x1b[33m? ",
    };
    let boot = match enabled {
        Some(true) => "已开启",
        Some(false) => "已关闭",
        None => "未知",
    };
    say(&mut out, "\x1b[1mSynctus 中继服务器\x1b[0m  ".to_string().concat(VERSION));
    say(
        &mut out,
        "状态 ".to_string().concat(mark).concat(state.label()).concat(
            "\x1b[0m　管理方式 ",
        ).concat(manager.label()).concat("　开机自启 ").concat(boot),
    );
    if let Some(s) = status {
        let tls = if s.tls {
            "　TLS 已启用"
        } else {
            "　\x1b[33m未启用 TLS\x1b[0m"
        };
        say(
            &mut out,
            "运行 ".to_string().concat(s.uptime_text().as_str()).concat("　房间 ").concat(
                decimal_text(s.rooms as u64).as_str(),
            ).concat("　设备 ").concat(decimal_text(s.devices as u64).as_str()).concat(
                "　监听 ",
            ).concat(s.bind.as_str()).concat(tls),
        );
    }
    assert(texts(out@) =~= header_text(manager, state, enabled, status));
    out
}

// ------------------------------------------------------------------ actions

/// What is said as soon as an action is done.
pub fn done_line(what: &str) -> (r: String)
    ensures
        r@ == "已"@ + what@ + "。"@,
{
    "已".to_string().concat(what).concat("。")
}

/// What is said of the state that an action left: systemd returns success for
/// `start` on a unit that then immediately dies.
pub fn act_lines(what: &str, state: RunState) -> (r: Vec<String>)
    ensures
        texts(r@) == seq!["当前状态："@ + state.name()] + (if state == RunState::Stopped && what@
            != "停止"@ {
            seq!["服务没有保持运行，选「查看日志」看原因。"@]
        } else {
            Seq::empty()
        }),
{
    let mut out: Vec<String> = Vec::new();
    say(&mut out, "当前状态：".to_string().concat(state.label()));
    if state == RunState::Stopped && !same(what, "停止") {
        say(&mut out, "服务没有保持运行，选「查看日志」看原因。".to_string());
    }
    assert(texts(out@) =~= seq!["当前状态："@ + state.name()] + (if state == RunState::Stopped
        && what@ != "停止"@ {
        seq!["服务没有保持运行，选「查看日志」看原因。"@]
    } else {
        Seq::empty()
    }));
    out
}

/// What is said after starting at boot was turned on or off.
pub fn autostart_line(enable: bool) -> (r: String)
    ensures
        r@ == "已"@ + (if enable {
            "开启"@
        } else {
            "关闭"@
        }) + "开机自启。"@,
{
    let what = if enable {
        "开启"
    } else {
        "关闭"
    };
    "已".to_string().concat(what).concat("开机自启。")
}

/// A log as it is shown.
pub fn logs_text(logs: String) -> (r: String)
    ensures
        r@ == (if trim(logs@).len() == 0 {
            "暂无日志。"@
        } else {
            logs@
        }),
{
    if trimmed(logs.as_str()).len() == 0 {
        "暂无日志。".to_string()
    } else {
        logs
    }
}

pub open spec fn device_line(d: DeviceInfo) -> Seq<char> {
    let owner = if d.user@.len() == 0 {
        "未分组"@
    } else {
        d.user@
    };
    let name = if d.name@.len() == 0 {
        d.id@
    } else {
        d.name@
    };
    "    - ["@ + owner + "] "@ + name + "　已连接 "@ + decimal(d.connected_secs as nat) + " 秒"@
}

pub open spec fn room_lines(room: RoomInfo) -> Seq<Seq<char>> {
    seq![
        "  房间 "@ + room.room@ + "　"@ + decimal(room.devices@.len()) + " 台设备　"@ + decimal(
            room.idle_secs as nat,
        ) + " 秒前活动"@,
    ] + room.devices@.map_values(|d: DeviceInfo| device_line(d))
}

/// Rooms one after the other.
pub open spec fn rooms_text(rooms: Seq<RoomInfo>) -> Seq<Seq<char>>
    decreases rooms.len(),
{
    if rooms.len() == 0 {
        Seq::empty()
    } else {
        rooms_text(rooms.drop_last()) + room_lines(rooms.last())
    }
}

fn say_device(out: &mut Vec<String>, d: &DeviceInfo)
    ensures
        texts(final(out)@) == texts(old(out)@).push(device_line(*d)),
{
    let owner = if d.user.as_str().is_empty() {
        "未分组"
    } else {
        d.user.as_str()
    };
    let name = if d.name.as_str().is_empty() {
        d.id.as_str()
    } else {
        d.name.as_str()
    };
    say(
        out,
        "    - [".to_string().concat(owner).concat("] ").concat(name).concat("　已连接 ").concat(
            decimal_text(d.connected_secs).as_str(),
        ).concat(" 秒"),
    );
}

fn say_room(out: &mut Vec<String>, room: &RoomInfo)
    ensures
        texts(final(out)@) == texts(old(out)@) + room_lines(*room),
{
    let ghost before = texts(out@);
    let count: u64 = room.devices.len() as u64;
    say(
        out,
        "  房间 ".to_string().concat(room.room.as_str()).concat("　").concat(
            decimal_text(count).as_str(),
        ).concat(" 台设备　").concat(decimal_text(room.idle_secs).as_str()).concat(" 秒前活动"),
    );
    let ghost head = texts(out@);
    let ghost all = room.devices@.map_values(|d: DeviceInfo| device_line(d));
    assert(head + all.take(0) == head);
    for i in 0..room.devices.len()
        invariant
            all == room.devices@.map_values(|d: DeviceInfo| device_line(d)),
            texts(out@) == head + all.take(i as int),
    {
        say_device(out, &room.devices[i]);
        assert(all.take(i + 1) == all.take(i as int).push(device_line(room.devices@[i as int])));
        assert(texts(out@) == head + all.take(i + 1));
    }
    assert(all.take(all.len() as int) == all);
    assert(texts(out@) == before + room_lines(*room));
}

/// The status page while the daemon answers.
pub open spec fn live_text(
    status: Status,
    web_bind: Option<String>,
    rooms: Result<Vec<RoomInfo>, String>,
) -> Seq<Seq<char>> {
    let counters = seq![
        ""@,
        "  版本        "@ + status.version@,
        "  已运行      "@ + duration_text(status.uptime_secs as nat),
        "  监听        "@ + status.bind@,
        "  TLS         "@ + (if status.tls {
            "已启用"@
        } else {
            "\x1b[33m未启用（房间与设备标识以明文传输）\x1b[0m"@
        }),
        "  房间 / 设备 "@ + decimal(status.rooms as nat) + " / "@ + decimal(status.devices as nat),
        "  已接受连接  "@ + decimal(status.accepted as nat),
        "  已拒绝连接  "@ + decimal(status.rejected as nat) + (if status.rejected > 0 {
            "　（多为配对码不一致）"@
        } else {
            ""@
        }),
    ];
    let panel = match web_bind {
        Some(bind) => seq!["  Web 面板    http://"@ + bind@],
        None => Seq::empty(),
    };
    let devices = match rooms {
        Ok(list) => if list@.len() > 0 {
            seq![""@, "在线设备："@] + rooms_text(list@)
        } else {
            seq![""@, "目前没有设备连接。"@]
        },
        Err(why) => seq!["\n无法读取房间列表："@ + why@],
    };
    counters + panel + devices
}

/// The status page.
pub open spec fn status_text(
    manager: ServiceManager,
    state: RunState,
    status: Result<Status, String>,
    web_bind: Option<String>,
    rooms: Result<Vec<RoomInfo>, String>,
) -> Seq<Seq<char>> {
    seq!["服务状态："@ + state.name() + "（"@ + manager.name() + "）"@] + (match status {
        Ok(s) => live_text(s, web_bind, rooms),
        Err(why) => if state == RunState::Running {
            // Running but unreachable is worth explaining: it usually means the
            // socket path or its permissions are wrong.
            seq![
                "\n服务在运行，但无法读取实时状态："@ + why@,
                "检查 "@ + DEFAULT_SOCKET@ + " 是否存在且当前用户可访问。"@,
            ]
        } else {
            seq!["\n服务未运行，没有实时状态可显示。"@]
        },
    })
}

fn say_live(
    out: &mut Vec<String>,
    status: &Status,
    web_bind: &Option<String>,
    rooms: &Result<Vec<RoomInfo>, String>,
)
    ensures
        texts(final(out)@) == texts(old(out)@) + live_text(*status, *web_bind, *rooms),
{
    let ghost before = texts(out@);
    let tls = if status.tls {
        "已启用"
    } else {
        "\x1b[33m未启用（房间与设备标识以明文传输）\x1b[0m"
    };
    let hint = if status.rejected > 0 {
        "　（多为配对码不一致）"
    } else {
        ""
    };
    say(out, "".to_string());
    say(out, "  版本        ".to_string().concat(status.version.as_str()));
    say(out, "  已运行      ".to_string().concat(status.uptime_text().as_str()));
    say(out, "  监听        ".to_string().concat(status.bind.as_str()));
    say(out, "  TLS         ".to_string().concat(tls));
    say(
        out,
        "  房间 / 设备 ".to_string().concat(decimal_text(status.rooms as u64).as_str()).concat(
            " / ",
        ).concat(decimal_text(status.devices as u64).as_str()),
    );
    say(out, "  已接受连接  ".to_string().concat(decimal_text(status.accepted).as_str()));
    say(
        out,
        "  已拒绝连接  ".to_string().concat(decimal_text(status.rejected).as_str()).concat(hint),
    );
    if let Some(bind) = web_bind {
        say(out, "  Web 面板    http://".to_string().concat(bind.as_str()));
    }
    match rooms {
        Ok(list) => {
            if list.len() > 0 {
                say(out, "".to_string());
                say(out, "在线设备：".to_string());
                let ghost head = texts(out@);
                assert(list@.take(0).len() == 0);
                assert(head + rooms_text(list@.take(0)) == head);
                for i in 0..list.len()
                    invariant
                        texts(out@) == head + rooms_text(list@.take(i as int)),
                {
                    assert(list@.take(i + 1).drop_last() == list@.take(i as int));
                    assert(list@.take(i + 1).last() == list@[i as int]);
                    say_room(out, &list[i]);
                    assert(texts(out@) == head + rooms_text(list@.take(i + 1)));
                }
                assert(list@.take(list@.len() as int) == list@);
            } else {
                say(out, "".to_string());
                say(out, "目前没有设备连接。".to_string());
            }
        },
        Err(why) => {
            say(out, "\n无法读取房间列表：".to_string().concat(why.as_str()));
        },
    }
    assert(texts(out@) =~= before + live_text(*status, *web_bind, *rooms));
}

/// The status page.
pub fn status_lines(
    manager: ServiceManager,
    state: RunState,
    status: &Result<Status, String>,
    web_bind: &Option<String>,
    rooms: &Result<Vec<RoomInfo>, String>,
) -> (r: Vec<String>)
    ensures
        texts(r@) == status_text(manager, state, *status, *web_bind, *rooms),
{
    let mut out: Vec<String> = Vec::new();
    say(
        &mut out,
        "服务状态：".to_string().concat(state.label()).concat("（").concat(
            manager.label(),
        ).concat("）"),
    );
    match status {
        Ok(s) => say_live(&mut out, s, web_bind, rooms),
        Err(why) => {
            if state == RunState::Running {
                say(
                    &mut out,
                    "\n服务在运行，但无法读取实时状态：".to_string().concat(why.as_str()),
                );
                say(
                    &mut out,
                    "检查 ".to_string().concat(DEFAULT_SOCKET).concat(
                        " 是否存在且当前用户可访问。",
                    ),
                );
            } else {
                say(&mut out, "\n服务未运行，没有实时状态可显示。".to_string());
            }
        },
    }
    assert(texts(out@) =~= status_text(manager, state, *status, *web_bind, *rooms));
    out
}

// ------------------------------------------------------------------- config

/// A question, with the current value.
pub fn question(label: &str, current: &str) -> (r: String)
    ensures
        r@ == label@ + " ["@ + (if current@.len() == 0 {
            "（空）"@
        } else {
            current@
        }) + "]: "@,
{
    let shown = if current.is_empty() {
        "（空）"
    } else {
        current
    };
    label.to_string().concat(" [").concat(shown).concat("]: ")
}

/// What a line of input means: the white space around it does not count, and an
/// empty one keeps the current value.
pub fn answer(line: &str) -> (r: Option<String>)
    ensures
        match r {
            Some(a) => a@ == trim(line@) && a@.len() > 0,
            None => trim(line@).len() == 0,
        },
{
    let t = trimmed_text(line);
    if t.as_str().is_empty() {
        None
    } else {
        Some(t)
    }
}

/// An answer to a question for a number.
#[derive(Debug, Clone, Copy, PartialEq, Eq, Structural)]
pub enum Number {
    /// Keep the current value.
    Keep,
    Value(u64),
    /// Not a number: ask again rather than silently keep the old value.
    Again,
}

/// What a line of input means for a number.
pub fn answer_number(line: &str) -> (r: Number)
    ensures
        r == (if trim(line@).len() == 0 {
            Number::Keep
        } else {
            match unsigned(trim(line@), u64::MAX as int) {
                Some(n) => Number::Value(n as u64),
                None => Number::Again,
            }
        }),
{
    let t = trimmed_text(line);
    if t.as_str().is_empty() {
        return Number::Keep;
    }
    match parse_u64(t.as_str()) {
        Some(n) => Number::Value(n),
        None => Number::Again,
    }
}

/// Answers to the questions about the configuration; those that are missing keep
/// the current value.
#[derive(Debug)]
pub struct Answers {
    pub bind: Option<String>,
    pub cert_path: Option<String>,
    pub key_path: Option<String>,
    pub max_devices_per_room: Option<u64>,
    pub max_rooms: Option<u64>,
    pub idle_timeout_secs: Option<u64>,
    pub rate_limit_per_sec: Option<u64>,
    pub web_bind: Option<String>,
    /// Asked only where the panel is on.
    pub web_password: Option<String>,
}

/// The new value, or the old one.
pub open spec fn path_answer(answer: Option<String>, old: Option<String>) -> Option<String> {
    match answer {
        Some(v) => path_or_none(v),
        None => old,
    }
}

/// The configuration after the questions.
pub open spec fn edited(cfg: ServerConfig, a: Answers) -> ServerConfig {
    let web_bind = path_answer(a.web_bind, cfg.web_bind);
    ServerConfig {
        bind: match a.bind {
            Some(v) => v,
            None => cfg.bind,
        },
        cert_path: path_answer(a.cert_path, cfg.cert_path),
        key_path: path_answer(a.key_path, cfg.key_path),
        max_devices_per_room: match a.max_devices_per_room {
            Some(n) => n as usize,
            None => cfg.max_devices_per_room,
        },
        max_rooms: match a.max_rooms {
            Some(n) => n as usize,
            None => cfg.max_rooms,
        },
        idle_timeout_secs: match a.idle_timeout_secs {
            Some(n) => n,
            None => cfg.idle_timeout_secs,
        },
        rate_limit_per_sec: match a.rate_limit_per_sec {
            Some(n) => n as u32,
            None => cfg.rate_limit_per_sec,
        },
        web_bind,
        // A panel that is switched off loses its password.
        web_password: if web_bind is Some {
            path_answer(a.web_password, cfg.web_password)
        } else if a.web_bind is Some {
            None
        } else {
            cfg.web_password
        },
        ..cfg
    }
}

/// Applies the answers about the settings people actually change.
pub fn edit_config(cfg: ServerConfig, a: Answers) -> (r: ServerConfig)
    ensures
        r == edited(cfg, a),
{
    let mut cfg = cfg;
    if let Some(v) = a.bind {
        cfg.bind = v;
    }
    if let Some(v) = a.cert_path {
        cfg.cert_path = non_empty(v);
    }
    if let Some(v) = a.key_path {
        cfg.key_path = non_empty(v);
    }
    if let Some(n) = a.max_devices_per_room {
        cfg.max_devices_per_room = #[verifier::truncate]
        (n as usize);
    }
    if let Some(n) = a.max_rooms {
        cfg.max_rooms = #[verifier::truncate]
        (n as usize);
    }
    if let Some(n) = a.idle_timeout_secs {
        cfg.idle_timeout_secs = n;
    }
    if let Some(n) = a.rate_limit_per_sec {
        cfg.rate_limit_per_sec = #[verifier::truncate]
        (n as u32);
    }
    let asked = a.web_bind.is_some();
    if let Some(v) = a.web_bind {
        cfg.web_bind = non_empty(v);
    }
    if cfg.web_bind.is_some() {
        if let Some(v) = a.web_password {
            cfg.web_password = non_empty(v);
        }
    } else if asked {
        cfg.web_password = None;
    }
    cfg
}

/// Pressing enter through all questions changes nothing.
pub proof fn enter_keeps_the_config(cfg: ServerConfig, a: Answers)
    requires
        a.bind is None,
        a.cert_path is None,
        a.key_path is None,
        a.max_devices_per_room is None,
        a.max_rooms is None,
        a.idle_timeout_secs is None,
        a.rate_limit_per_sec is None,
        a.web_bind is None,
        a.web_password is None,
    ensures
        edited(cfg, a) == cfg,
{
}

/// Problems, one a line.
pub open spec fn listed_problems(problems: Seq<String>) -> Seq<Seq<char>> {
    problems.map_values(|p: String| "  - "@ + p@)
}

fn say_problems(out: &mut Vec<String>, problems: &Vec<String>)
    ensures
        texts(final(out)@) == texts(old(out)@) + listed_problems(problems@),
{
    let ghost before = texts(out@);
    let ghost all = listed_problems(problems@);
    assert(before + all.take(0) == before);
    for i in 0..problems.len()
        invariant
            all == listed_problems(problems@),
            texts(out@) == before + all.take(i as int),
    {
        assert(all.take(i + 1) == all.take(i as int).push("  - "@ + problems@[i as int]@));
        say(out, "  - ".to_string().concat(problems[i].as_str()));
        assert(texts(out@) == before + all.take(i + 1));
    }
    assert(all.take(all.len() as int) == all);
}

/// What is said of the problems that were found in a configuration.
pub open spec fn check_text(path: Seq<char>, problems: Seq<String>) -> Seq<Seq<char>> {
    seq!["配置文件："@ + path] + (if problems.len() == 0 {
        seq!["\x1b[32m配置没有问题。\x1b[0m"@]
    } else {
        seq!["\x1b[33m发现 "@ + decimal(problems.len()) + " 处问题：\x1b[0m"@] + listed_problems(
            problems,
        )
    })
}

/// What is said of the problems that were found in a configuration.
pub fn check_lines(path: &str, problems: &Vec<String>) -> (r: Vec<String>)
    ensures
        texts(r@) == check_text(path@, problems@),
{
    let mut out: Vec<String> = Vec::new();
    say(&mut out, "配置文件：".to_string().concat(path));
    if problems.len() == 0 {
        say(&mut out, "\x1b[32m配置没有问题。\x1b[0m".to_string());
    } else {
        let count: u64 = problems.len() as u64;
        say(
            &mut out,
            "\x1b[33m发现 ".to_string().concat(decimal_text(count).as_str()).concat(
                " 处问题：\x1b[0m",
            ),
        );
        say_problems(&mut out, problems);
    }
    assert(texts(out@) =~= check_text(path@, problems@));
    out
}

/// What is said before a configuration with problems is saved: saving one that the
/// daemon will refuse turns a typo into a service that does not come back up.
/// Nothing where there are none.
pub fn save_warning(problems: &Vec<String>) -> (r: Vec<String>)
    ensures
        texts(r@) == (if problems@.len() == 0 {
            Seq::empty()
        } else {
            seq!["\n\x1b[33m这些问题会导致服务无法启动：\x1b[0m"@] + listed_problems(problems@)
        }),
{
    let mut out: Vec<String> = Vec::new();
    assert(texts(out@) == Seq::<Seq<char>>::empty());
    if problems.len() > 0 {
        say(&mut out, "\n\x1b[33m这些问题会导致服务无法启动：\x1b[0m".to_string());
        assert(texts(out@) == seq!["\n\x1b[33m这些问题会导致服务无法启动：\x1b[0m"@]);
        say_problems(&mut out, problems);
    }
    out
}

/// Why the daemon does not start: a configuration that cannot work is refused
/// rather than started and left to misbehave.
pub fn startup_refusal(problems: &Vec<String>) -> (r: Option<String>)
    ensures
        r is Some <==> problems@.len() > 0,
        r matches Some(why) ==> why@ == "配置有 "@ + decimal(problems@.len())
            + " 处问题，已拒绝启动"@,
{
    if problems.len() == 0 {
        return None;
    }
    let count: u64 = problems.len() as u64;
    Some(
        "配置有 ".to_string().concat(decimal_text(count).as_str()).concat(" 处问题，已拒绝启动"),
    )
}

/// What stands behind the last colon, or everything.
pub open spec fn port_of(bind: Seq<char>) -> Seq<char> {
    match bind.index_of_last(':') {
        Some(i) => bind.skip(i + 1),
        None => bind,
    }
}

fn port(bind: &str) -> (r: String)
    ensures
        r@ == port_of(bind@),
{
    let cs = chars_of(bind);
    proof {
        bind@.index_of_last_ensures(':');
    }
    let n: usize = cs.len();
    match find_last(cs.as_slice(), ':') {
        Some(i) => {
            let r = text_of(cs.as_slice(), i + 1, n);
            assert(r@ == bind@.skip(i + 1));
            r
        },
        None => bind.to_string(),
    }
}

pub open spec fn client_info_text(cfg: ServerConfig) -> Seq<Seq<char>> {
    let tls = cfg.cert_path is Some && cfg.key_path is Some;
    let head = seq![
        "在三端的「设置 → 服务器」里填入：\n"@,
        "  地址    <这台机器的域名或公网 IP>:"@ + port_of(cfg.bind@),
        "  TLS     "@ + (if tls {
            "开启"@
        } else {
            "关闭（仅限内网测试）"@
        }),
        ""@,
        "两个人必须填入\x1b[1m同一个配对码\x1b[0m，在任一端点「生成」得到。"@,
        "配对码就是密钥：服务器只转发密文，读不到任何状态内容。"@,
    ];
    let plain = if tls {
        Seq::empty()
    } else {
        seq![
            ""@,
            "\x1b[33m当前未启用 TLS。\x1b[0m消息内容仍是端到端加密的，"@,
            "但房间与设备标识会以明文经过网络。公网部署建议配置证书。"@,
        ]
    };
    let local = if after_prefix(cfg.bind@, "127."@) is Some {
        seq![
            ""@,
            "\x1b[33m注意：\x1b[0m监听地址是 "@ + cfg.bind@ + "，只有本机能连接。"@,
            "要让其他设备连入，改成 0.0.0.0:"@ + port_of(cfg.bind@) + "。"@,
        ]
    } else {
        Seq::empty()
    };
    head + plain + local
}

/// What the two users need to type into their clients.
pub fn client_info(cfg: &ServerConfig) -> (r: Vec<String>)
    ensures
        texts(r@) == client_info_text(*cfg),
{
    let mut out: Vec<String> = Vec::new();
    let port = port(cfg.bind.as_str());
    let tls = if cfg.tls_enabled() {
        "开启"
    } else {
        "关闭（仅限内网测试）"
    };
    say(&mut out, "在三端的「设置 → 服务器」里填入：\n".to_string());
    say(
        &mut out,
        "  地址    <这台机器的域名或公网 IP>:".to_string().concat(port.as_str()),
    );
    say(&mut out, "  TLS     ".to_string().concat(tls));
    say(&mut out, "".to_string());
    say(
        &mut out,
        "两个人必须填入\x1b[1m同一个配对码\x1b[0m，在任一端点「生成」得到。".to_string(),
    );
    say(&mut out, "配对码就是密钥：服务器只转发密文，读不到任何状态内容。".to_string());
    if !cfg.tls_enabled() {
        say(&mut out, "".to_string());
        say(
            &mut out,
            "\x1b[33m当前未启用 TLS。\x1b[0m消息内容仍是端到端加密的，".to_string(),
        );
        say(
            &mut out,
            "但房间与设备标识会以明文经过网络。公网部署建议配置证书。".to_string(),
        );
    }
    if strip_prefix(cfg.bind.as_str(), "127.").is_some() {
        say(&mut out, "".to_string());
        say(
            &mut out,
            "\x1b[33m注意：\x1b[0m监听地址是 ".to_string().concat(cfg.bind.as_str()).concat(
                "，只有本机能连接。",
            ),
        );
        say(
            &mut out,
            "要让其他设备连入，改成 0.0.0.0:".to_string().concat(port.as_str()).concat("。"),
        );
    }
    assert(texts(out@) =~= client_info_text(*cfg));
    out
}

// ------------------------------------------------------------- admin socket

/// What the daemon answers. A request that could not be read comes with the
/// reason.
pub fn reply(hub: &Hub, request: Result<Request, String>, now: u64) -> (r: Response)
    requires
        hub.wf(),
    ensures
        match request {
            Ok(Request::Status) => r matches Response::Status(s) && hub.described(s, now),
            Ok(Request::Rooms) => r matches Response::Rooms { rooms } && hub.tells_rooms(
                rooms@,
                now,
            ),
            Ok(Request::Snapshot) => r matches Response::Snapshot(s) && hub.pictured(s, now),
            Err(why) => r matches Response::Error { message } && message@ == "无法解析请求: "@
                + why@,
        },
{
    match request {
        Ok(Request::Status) => Response::Status(hub.status(now)),
        Ok(Request::Rooms) => Response::Rooms { rooms: hub.room_info(now) },
        Ok(Request::Snapshot) => Response::Snapshot(hub.snapshot(now)),
        Err(why) => Response::Error {
            message: "无法解析请求: ".to_string().concat(why.as_str()),
        },
    }
}

/// The status in an answer.
pub fn query_status(response: Response) -> (r: Result<Status, String>)
    ensures
        match response {
            Response::Status(s) => r == Ok::<Status, String>(s),
            Response::Error { message } => r == Err::<Status, String>(message),
            other => r matches Err(why) && why@ == "服务器返回了意外的响应: "@ + response_text(
                other,
            ),
        },
{
    match response {
        Response::Status(s) => Ok(s),
        Response::Error { message } => Err(message),
        other => Err("服务器返回了意外的响应: ".to_string().concat(
            show_response(&other).as_str(),
        )),
    }
}

/// The rooms in an answer.
pub fn query_rooms(response: Response) -> (r: Result<Vec<RoomInfo>, String>)
    ensures
        match response {
            Response::Rooms { rooms } => r == Ok::<Vec<RoomInfo>, String>(rooms),
            Response::Error { message } => r == Err::<Vec<RoomInfo>, String>(message),
            other => r matches Err(why) && why@ == "服务器返回了意外的响应: "@ + response_text(
                other,
            ),
        },
{
    match response {
        Response::Rooms { rooms } => Ok(rooms),
        Response::Error { message } => Err(message),
        other => Err("服务器返回了意外的响应: ".to_string().concat(
            show_response(&other).as_str(),
        )),
    }
}

// ---------------------------------------------------- arguments of the daemon

/// Arguments of the daemon.
#[derive(Debug)]
pub struct Args {
    pub config: Option<String>,
    /// Overrides the admin socket path.
    pub admin_socket: Option<String>,
    pub help: bool,
}

/// What the arguments of the daemon say.
#[derive(Debug)]
pub enum Parsed {
    Run(Args),
    /// Print the version and stop.
    Version,
    /// A path is missing behind this argument.
    Missing(&'static str),
    Unknown(String),
}

/// What the arguments of the daemon say.
pub enum ParsedText {
    Run { config: Option<Seq<char>>, admin_socket: Option<Seq<char>>, help: bool },
    Version,
    Missing(Seq<char>),
    Unknown(Seq<char>),
}

impl View for Parsed {
    type V = ParsedText;

    open spec fn view(&self) -> ParsedText {
        match *self {
            Parsed::Run(a) => ParsedText::Run {
                config: option_text(a.config),
                admin_socket: option_text(a.admin_socket),
                help: a.help,
            },
            Parsed::Version => ParsedText::Version,
            Parsed::Missing(what) => ParsedText::Missing(what@),
            Parsed::Unknown(what) => ParsedText::Unknown(what@),
        }
    }
}

/// Reads arguments from left to right; what comes last counts.
pub open spec fn parsed(
    args: Seq<Seq<char>>,
    config: Option<Seq<char>>,
    admin_socket: Option<Seq<char>>,
    help: bool,
) -> ParsedText
    decreases args.len(),
{
    if args.len() == 0 {
        ParsedText::Run { config, admin_socket, help }
    } else if args[0] == "-c"@ || args[0] == "--config"@ {
        if args.len() < 2 {
            ParsedText::Missing("--config"@)
        } else {
            parsed(args.skip(2), Some(args[1]), admin_socket, help)
        }
    } else if args[0] == "--admin-socket"@ {
        if args.len() < 2 {
            ParsedText::Missing("--admin-socket"@)
        } else {
            parsed(args.skip(2), config, Some(args[1]), help)
        }
    } else if args[0] == "-h"@ || args[0] == "--help"@ {
        parsed(args.skip(1), config, admin_socket, true)
    } else if args[0] == "-V"@ || args[0] == "--version"@ {
        ParsedText::Version
    } else {
        ParsedText::Unknown(args[0])
    }
}

impl Args {
    /// Reads the arguments of the daemon.
    pub fn parse(args: &Vec<String>) -> (r: Parsed)
        ensures
            r@ == parsed(texts(args@), None, None, false),
    {
        let mut config: Option<String> = None;
        let mut admin_socket: Option<String> = None;
        let mut help = false;
        let mut i: usize = 0;
        let ghost all = texts(args@);
        assert(all.skip(0) == all);
        while i < args.len()
            invariant
                all == texts(args@),
                i <= args@.len(),
                parsed(
                    all.skip(i as int),
                    option_text(config),
                    option_text(admin_socket),
                    help,
                ) == parsed(all, None, None, false),
            decreases args@.len() - i,
        {
            let ghost rest = all.skip(i as int);
            assert(rest[0] == args@[i as int]@);
            let left: usize = args.len() - i;
            let arg = args[i].as_str();
            if same(arg, "-c") || same(arg, "--config") {
                if left < 2 {
                    return Parsed::Missing("--config");
                }
                assert(rest[1] == args@[i + 1]@);
                assert(rest.skip(2) == all.skip(i + 2));
                config = Some(args[i + 1].clone());
                i = i + 2;
            } else if same(arg, "--admin-socket") {
                if left < 2 {
                    return Parsed::Missing("--admin-socket");
                }
                assert(rest[1] == args@[i + 1]@);
                assert(rest.skip(2) == all.skip(i + 2));
                admin_socket = Some(args[i + 1].clone());
                i = i + 2;
            } else if same(arg, "-h") || same(arg, "--help") {
                assert(rest.skip(1) == all.skip(i + 1));
                help = true;
                i = i + 1;
            } else if same(arg, "-V") || same(arg, "--version") {
                return Parsed::Version;
            } else {
                return Parsed::Unknown(args[i].clone());
            }
        }
        assert(all.skip(all.len() as int).len() == 0);
        Parsed::Run(Args { config, admin_socket, help })
    }
}

// --------------------------------------------------------------------- help

pub const TOOL_USAGE: &'static str = "

用法:
  synctus              打开管理菜单（推荐）
  synctus <命令>       直接执行，便于脚本调用

命令:
  status    显示状态与在线设备
  start     启动服务
  stop      停止服务
  restart   重启服务
  logs      显示最近日志
  config    显示配置文件
  check     检查配置是否有问题

环境变量:
  SYNCTUS_CONFIG         配置文件路径，默认 ";

/// Help of the management tool.
pub fn tool_help() -> (r: String)
    ensures
        r@ == "Synctus 中继服务器管理工具 "@ + VERSION@ + TOOL_USAGE@ + DEFAULT_CONFIG@
            + "\n  SYNCTUS_ADMIN_SOCKET   管理套接字路径，默认 "@ + DEFAULT_SOCKET@
            + "\n\n管理服务需要 root 权限，通常写作 `sudo synctus`。"@,
{
    "Synctus 中继服务器管理工具 ".to_string().concat(VERSION).concat(TOOL_USAGE).concat(
        DEFAULT_CONFIG,
    ).concat("\n  SYNCTUS_ADMIN_SOCKET   管理套接字路径，默认 ").concat(DEFAULT_SOCKET).concat(
        "\n\n管理服务需要 root 权限，通常写作 `sudo synctus`。",
    )
}

pub const DAEMON_USAGE: &'static str = "

用法:
  synctus-server [选项]

选项:
  -c, --config <路径>      TOML 配置文件
      --admin-socket <路径> 管理套接字，默认 ";

pub const DAEMON_ENVIRONMENT: &'static str = "
  -h, --help               显示本帮助
  -V, --version            显示版本

环境变量（覆盖配置文件）:
  SYNCTUS_BIND          监听地址，默认 0.0.0.0:8787
  SYNCTUS_CERT          TLS 证书链 PEM
  SYNCTUS_KEY           TLS 私钥 PEM
  SYNCTUS_MAX_ROOMS     最大房间数
  SYNCTUS_RATE_LIMIT    每设备每秒转发上限
  SYNCTUS_IDLE_TIMEOUT  空闲超时秒数
  SYNCTUS_LOG           日志过滤，如 synctus_server=debug

日常管理请直接运行 `synctus`。
服务器只转发密文，无法读取任何状态内容。";

/// Help of the daemon.
pub fn daemon_help() -> (r: String)
    ensures
        r@ == "Synctus 中继服务器 "@ + VERSION@ + DAEMON_USAGE@ + DEFAULT_SOCKET@
            + DAEMON_ENVIRONMENT@,
{
    "Synctus 中继服务器 ".to_string().concat(VERSION).concat(DAEMON_USAGE).concat(
        DEFAULT_SOCKET,
    ).concat(DAEMON_ENVIRONMENT)
}

/// A value that is set overrides the default, without the white space around it; a
/// blank one does not.
pub proof fn blank_values_do_not_override(value: &str, default: Seq<char>)
    ensures
        overridden(None, default) == default,
        trim(value@).len() == 0 ==> overridden(Some(value), default) == default,
        trim(value@).len() > 0 ==> overridden(Some(value), default) == trim(value@),
{
}

/// The third entry of the menu says what choosing it does: it stops a running service
/// and starts one that does not run. So does the fifth, which turns starting at boot
/// off where it is on, and on otherwise.
pub proof fn the_menu_says_what_it_does(
    state: RunState,
    enabled: Option<bool>,
    third: Choice,
    fifth: Choice,
)
    requires
        is_choice("3"@, state, enabled, third),
        is_choice("5"@, state, enabled, fifth),
    ensures
        state == RunState::Running ==> third == Choice::Stop && menu_text(state, enabled)[3]
            == "  3) "@ + "停止服务"@,
        state != RunState::Running ==> third == Choice::Start && menu_text(state, enabled)[3]
            == "  3) "@ + "启动服务"@,
        enabled == Some(true) ==> fifth == (Choice::Autostart { enable: false }) && menu_text(
            state,
            enabled,
        )[5] == "  5) "@ + "关闭"@ + "开机自启"@,
        enabled != Some(true) ==> fifth == (Choice::Autostart { enable: true }) && menu_text(
            state,
            enabled,
        )[5] == "  5) "@ + "开启"@ + "开机自启"@,
{
    reveal_strlit("1");
    reveal_strlit("2");
    reveal_strlit("3");
    reveal_strlit("4");
    reveal_strlit("5");
    assert("3"@[0] == '3' && "1"@[0] == '1' && "2"@[0] == '2' && "4"@[0] == '4' && "5"@[0] == '5');
}

/// An answer is taken for the setting that it was asked for, and a question that was
/// passed over leaves its setting alone. A path that is answered with nothing is taken
/// back.
pub proof fn answers_are_taken(cfg: ServerConfig, a: Answers)
    ensures
        ({
            let r = edited(cfg, a);
            &&& a.bind matches Some(v) ==> r.bind == v
            &&& a.bind is None ==> r.bind == cfg.bind
            &&& a.cert_path matches Some(v) ==> (v@.len() > 0 ==> r.cert_path == Some(v)) && (
            v@.len() == 0 ==> r.cert_path is None)
            &&& a.cert_path is None ==> r.cert_path == cfg.cert_path
            &&& a.key_path matches Some(v) ==> (v@.len() > 0 ==> r.key_path == Some(v)) && (v@.len()
                == 0 ==> r.key_path is None)
            &&& a.key_path is None ==> r.key_path == cfg.key_path
            &&& a.max_devices_per_room matches Some(n) ==> (n <= u32::MAX
                ==> r.max_devices_per_room == n)
            &&& a.max_devices_per_room is None ==> r.max_devices_per_room
                == cfg.max_devices_per_room
            &&& a.max_rooms matches Some(n) ==> (n <= u32::MAX ==> r.max_rooms == n)
            &&& a.max_rooms is None ==> r.max_rooms == cfg.max_rooms
            &&& a.idle_timeout_secs matches Some(n) ==> r.idle_timeout_secs == n
            &&& a.idle_timeout_secs is None ==> r.idle_timeout_secs == cfg.idle_timeout_secs
            &&& a.rate_limit_per_sec matches Some(n) ==> (n <= u32::MAX ==> r.rate_limit_per_sec
                == n)
            &&& a.rate_limit_per_sec is None ==> r.rate_limit_per_sec == cfg.rate_limit_per_sec
            &&& r.heartbeat_secs == cfg.heartbeat_secs
            &&& r.rate_limit_burst == cfg.rate_limit_burst
            &&& r.handshake_timeout_secs == cfg.handshake_timeout_secs
        }),
{
}

/// A panel that is switched off loses its password; one that is on keeps it, or takes
/// the new one.
pub proof fn no_panel_no_password(cfg: ServerConfig, a: Answers)
    ensures
        ({
            let r = edited(cfg, a);
            &&& a.web_bind matches Some(v) ==> (v@.len() == 0 ==> r.web_bind is None
                && r.web_password is None) && (v@.len() > 0 ==> r.web_bind == Some(v))
            &&& a.web_bind is None ==> r.web_bind == cfg.web_bind
            &&& r.web_bind is Some ==> (a.web_password matches Some(p) ==> (p@.len() > 0
                ==> r.web_password == Some(p)) && (p@.len() == 0 ==> r.web_password is None))
            &&& r.web_bind is Some && a.web_password is None ==> r.web_password == cfg.web_password
        }),
{
}

/// The port is what stands behind the last colon of an address.
pub proof fn ports_stand_behind_the_last_colon(host: Seq<char>, port: Seq<char>)
    requires
        !port.contains(':'),
    ensures
        port_of(host + seq![':'] + port) == port,
        port_of(port) == port,
{
    let s = host + seq![':'] + port;
    s.index_of_last_ensures(':');
    port.index_of_last_ensures(':');
    assert(s[host.len() as int] == ':');
    assert(s.contains(':'));
    let i = s.index_of_last(':')->0;
    if i > host.len() {
        assert(port[i - host.len() - 1] == s[i]);
    }
    assert(i == host.len());
    assert(s.skip(i + 1) =~= port);
}

/// Of several values for one option the last one counts, an option without its value
/// is refused, and nothing behind a refused argument is looked at.
pub proof fn the_last_option_counts(
    a: Seq<char>,
    b: Seq<char>,
    socket: Option<Seq<char>>,
    help: bool,
    config: Option<Seq<char>>,
    rest: Seq<Seq<char>>,
)
    ensures
        parsed(seq!["-c"@, a, "-c"@, b], None, None, false) == (ParsedText::Run {
            config: Some(b),
            admin_socket: None,
            help: false,
        }),
        parsed(seq!["-c"@, a] + rest, config, socket, help) == parsed(rest, Some(a), socket, help),
        parsed(seq!["--config"@, a] + rest, config, socket, help) == parsed(
            rest,
            Some(a),
            socket,
            help,
        ),
        parsed(seq!["--admin-socket"@, a] + rest, config, socket, help) == parsed(
            rest,
            config,
            Some(a),
            help,
        ),
        parsed(seq!["-h"@] + rest, config, socket, help) == parsed(rest, config, socket, true),
        parsed(seq!["--help"@] + rest, config, socket, help) == parsed(rest, config, socket, true),
        parsed(seq!["-V"@] + rest, config, socket, help) == ParsedText::Version,
        parsed(seq!["--version"@] + rest, config, socket, help) == ParsedText::Version,
        parsed(seq!["-c"@], config, socket, help) == ParsedText::Missing("--config"@),
        parsed(seq!["--admin-socket"@], config, socket, help) == ParsedText::Missing(
            "--admin-socket"@,
        ),
        parsed(Seq::empty(), config, socket, help) == (ParsedText::Run {
            config,
            admin_socket: socket,
            help,
        }),
{
    options_are_distinct();
    assert((seq!["-c"@, a] + rest).skip(2) =~= rest);
    assert((seq!["--config"@, a] + rest).skip(2) =~= rest);
    assert((seq!["--admin-socket"@, a] + rest).skip(2) =~= rest);
    assert((seq!["-h"@] + rest).skip(1) =~= rest);
    assert((seq!["--help"@] + rest).skip(1) =~= rest);
    let four = seq!["-c"@, a, "-c"@, b];
    assert(four.skip(2) =~= seq!["-c"@, b]);
    assert(seq!["-c"@, b].skip(2) =~= Seq::<Seq<char>>::empty());
    assert(parsed(four.skip(2).skip(2), Some(b), None, false) == (ParsedText::Run {
        config: Some(b),
        admin_socket: None,
        help: false,
    }));
    assert(parsed(four.skip(2), Some(a), None, false) == parsed(
        four.skip(2).skip(2),
        Some(b),
        None,
        false,
    ));
}

proof fn options_are_distinct()
    ensures
        "-c"@ != "-h"@,
        "-c"@ != "-V"@,
        "-h"@ != "-V"@,
        "-c"@ != "--help"@,
        "-c"@ != "--admin-socket"@,
        "--config"@ != "--help"@,
        "--config"@ != "--admin-socket"@,
        "-h"@ != "--config"@,
        "-h"@ != "--admin-socket"@,
        "--help"@ != "--config"@,
        "--help"@ != "--admin-socket"@,
        "-V"@ != "--config"@,
        "-V"@ != "--admin-socket"@,
        "-V"@ != "--help"@,
        "--version"@ != "-c"@,
        "--version"@ != "--config"@,
        "--version"@ != "--admin-socket"@,
        "--version"@ != "-h"@,
        "--version"@ != "--help"@,
{
    reveal_strlit("-c");
    reveal_strlit("-h");
    reveal_strlit("-V");
    reveal_strlit("--config");
    reveal_strlit("--help");
    reveal_strlit("--version");
    reveal_strlit("--admin-socket");
    assert("-c"@[1] == 'c' && "-h"@[1] == 'h' && "-V"@[1] == 'V');
    assert("-c"@.len() == 2 && "-h"@.len() == 2 && "-V"@.len() == 2);
    assert("--config"@.len() == 8 && "--help"@.len() == 6 && "--version"@.len() == 9
        && "--admin-socket"@.len() == 14);
}

/// A configuration without problems is said to have none; else each of them has a
/// line of its own.
pub proof fn each_problem_has_a_line(path: Seq<char>, problems: Seq<String>, i: int)
    ensures
        problems.len() == 0 ==> check_text(path, problems).len() == 2,
        problems.len() > 0 ==> check_text(path, problems).len() == 2 + problems.len(),
        0 <= i < problems.len() ==> check_text(path, problems)[2 + i] == "  - "@ + problems[i]@,
        check_text(path, problems)[0] == "配置文件："@ + path,
{
}

/// Someone who sets a client up is warned when the relay speaks without TLS, and when
/// it listens to its own machine only.
pub proof fn exposed_and_hidden_relays_are_warned_of(cfg: ServerConfig)
    ensures
        ({
            let tls = cfg.cert_path is Some && cfg.key_path is Some;
            let local = after_prefix(cfg.bind@, "127."@) is Some;
            &&& client_info_text(cfg).len() == 6 + (if tls {
                0int
            } else {
                3
            }) + if local {
                3int
            } else {
                0
            }
            &&& client_info_text(cfg)[1] == "  地址    <这台机器的域名或公网 IP>:"@ + port_of(
                cfg.bind@,
            )
            &&& tls ==> client_info_text(cfg)[2] == "  TLS     "@ + "开启"@
        }),
{
}

/// A device is listed with its owner, its name and how long it is connected; without a
/// name it goes by its id.
pub proof fn devices_are_listed_by_owner_and_name(d: DeviceInfo)
    ensures
        d.user@.len() > 0 && d.name@.len() > 0 ==> device_line(d) == "    - ["@ + d.user@ + "] "@
            + d.name@ + "　已连接 "@ + decimal(d.connected_secs as nat) + " 秒"@,
        d.user@.len() > 0 && d.name@.len() == 0 ==> device_line(d) == "    - ["@ + d.user@ + "] "@
            + d.id@ + "　已连接 "@ + decimal(d.connected_secs as nat) + " 秒"@,
        d.user@.len() == 0 && d.name@.len() > 0 ==> device_line(d) == "    - ["@ + "未分组"@ + "] "@
            + d.name@ + "　已连接 "@ + decimal(d.connected_secs as nat) + " 秒"@,
{
}

/// Every room has its line, and every device of it another one.
pub proof fn every_device_has_a_line(rooms: Seq<RoomInfo>, room: RoomInfo, i: int)
    ensures
        room_lines(room).len() == 1 + room.devices@.len(),
        0 <= i < room.devices@.len() ==> room_lines(room)[1 + i] == device_line(room.devices@[i]),
        rooms_text(rooms.push(room)) == rooms_text(rooms) + room_lines(room),
        rooms_text(Seq::empty()).len() == 0,
{
    assert(rooms.push(room).drop_last() =~= rooms);
    assert(rooms.push(room).last() == room);
}

/// Each command of the tool is called by its own name, and what has another name is
/// told back as unknown.
pub proof fn commands_go_by_their_names(arg: Seq<char>, task: Task)
    requires
        asks_for(arg, task),
    ensures
        task is Status ==> arg == "status"@,
        task is Start ==> arg == "start"@,
        task is Stop ==> arg == "stop"@,
        task is Restart ==> arg == "restart"@,
        task is Logs ==> arg == "logs"@,
        task is Config ==> arg == "config"@,
        task is Check ==> arg == "check"@,
        task is Help ==> arg == "-h"@ || arg == "--help"@ || arg == "help"@,
        task is Version ==> arg == "-V"@ || arg == "--version"@,
        task matches Task::Unknown(other) ==> other@ == arg,
        !(task is Menu),
        arg == "status"@ ==> task is Status,
        arg == "start"@ ==> task is Start,
        arg == "stop"@ ==> task is Stop,
        arg == "restart"@ ==> task is Restart,
{
    reveal_strlit("status");
    reveal_strlit("start");
    reveal_strlit("stop");
    reveal_strlit("restart");
    assert("status"@.len() == 6 && "start"@.len() == 5 && "stop"@.len() == 4 && "restart"@.len()
        == 7);
}

}
