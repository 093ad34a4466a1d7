//! Where the service listens, and under which address it is reached.
use vstd::prelude::*;
use vstd::string::*;

use crate::text::{
    behind, bounded, chars_of, join2, nat_text, nat_to_text, parse_u16, same, strip_front, trimmed,
    unsigned_value, views,
};

verus! {

/// The address on which the service listens unless another is given.
pub open spec fn default_listen_addr() -> Seq<char> {
    "127.0.0.1:3000"@
}

/// The port that a text denotes.
pub open spec fn port_of(s: Seq<char>) -> Option<int> {
    bounded(unsigned_value(s), 0, u16::MAX as int)
}

/// The address for a port on all interfaces, or why there is none. The message names the source of
/// the port.
pub open spec fn port_address(value: Seq<char>, source: Seq<char>) -> Result<Seq<char>, Seq<char>> {
    match port_of(value) {
        None => Err(source + " 必须是 1 到 65535 之间的端口号"@),
        Some(port) => if port == 0 {
            Err(source + " 不能为 0"@)
        } else {
            Ok("0.0.0.0:"@ + nat_text(port))
        },
    }
}

/// A result as a value.
pub open spec fn result_view(r: Result<String, String>) -> Result<Seq<char>, Seq<char>> {
    match r {
        Ok(text) => Ok(text@),
        Err(message) => Err(message@),
    }
}

/// The address for a port on all interfaces.
pub fn port_addr(value: &str, source: &str) -> (r: Result<String, String>)
    ensures
        result_view(r) == port_address(value@, source@),
{
    match parse_u16(value) {
        None => Err(join2(source, " 必须是 1 到 65535 之间的端口号")),
        Some(port) => if port == 0 {
            Err(join2(source, " 不能为 0"))
        } else {
            Ok(join2("0.0.0.0:", &nat_to_text(port as u128)))
        },
    }
}

/// The value behind an option, or why there is none.
pub open spec fn value_after(args: Seq<Seq<char>>, at: int, option: Seq<char>) -> Result<
    Seq<char>,
    Seq<char>,
> {
    if at < args.len() && trimmed(args[at]).len() > 0 {
        Ok(args[at])
    } else {
        Err(option + " 后面缺少值"@)
    }
}

/// The value behind an option.
pub fn required_arg(args: &Vec<String>, at: usize, option: &str) -> (r: Result<String, String>)
    ensures
        result_view(r) == value_after(views(args@), at as int, option@),
{
    if at < args.len() && !args[at].as_str().trim().is_empty() {
        Ok(args[at].clone())
    } else {
        Err(join2(option, " 后面缺少值"))
    }
}

/// A text with a front taken off as often as it stands there.
pub open spec fn without_fronts(s: Seq<char>, front: Seq<char>) -> Seq<char>
    decreases s.len(),
{
    if front.len() == 0 {
        s
    } else {
        match behind(s, front) {
            Some(rest) => without_fronts(rest, front),
            None => s,
        }
    }
}

fn strip_fronts(s: &str, front: &str) -> (r: String)
    requires
        front@.len() > 0,
    ensures
        r@ == without_fronts(s@, front@),
{
    let mut text = s.to_owned();
    loop
        invariant
            front@.len() > 0,
            without_fronts(text@, front@) == without_fronts(s@, front@),
        decreases text@.len(),
    {
        match strip_front(&text, front) {
            Some(rest) => {
                text = rest;
            },
            None => return text,
        }
    }
}

/// The value within an option that is joined to it, or why there is none.
pub open spec fn value_within(arg: Seq<char>, front: Seq<char>, option: Seq<char>) -> Result<
    Seq<char>,
    Seq<char>,
> {
    let value = trimmed(without_fronts(arg, front));
    if value.len() == 0 {
        Err(option + " 后面缺少值"@)
    } else {
        Ok(value)
    }
}

fn joined_value(arg: &str, front: &str, option: &str) -> (r: Result<String, String>)
    requires
        front@.len() > 0,
    ensures
        result_view(r) == value_within(arg@, front@, option@),
{
    let rest = strip_fronts(arg, front);
    let value = rest.as_str().trim();
    if value.is_empty() {
        Err(join2(option, " 后面缺少值"))
    } else {
        Ok(value.to_owned())
    }
}

/// What the arguments ask for.
pub enum ArgsView {
    /// The usage is to be shown.
    Help,
    /// The arguments are refused.
    Refused(Seq<char>),
    /// The address and the port that are given.
    Given(Option<Seq<char>>, Option<Seq<char>>),
}

/// What the arguments from one on ask for. They are read one after the other; of several values
/// for one option the last counts.
pub open spec fn args_ask(
    args: Seq<Seq<char>>,
    at: int,
    listen: Option<Seq<char>>,
    port: Option<Seq<char>>,
) -> ArgsView
    decreases args.len() - at,
{
    if at >= args.len() {
        ArgsView::Given(listen, port)
    } else {
        let arg = args[at];
        if arg == "--listen"@ {
            match value_after(args, at + 1, "--listen"@) {
                Err(message) => ArgsView::Refused(message),
                Ok(value) => args_ask(args, at + 2, Some(value), port),
            }
        } else if arg == "--port"@ {
            match value_after(args, at + 1, "--port"@) {
                Err(message) => ArgsView::Refused(message),
                Ok(value) => args_ask(args, at + 2, listen, Some(value)),
            }
        } else if arg == "-h"@ || arg == "--help"@ {
            ArgsView::Help
        } else if behind(arg, "--listen="@) is Some {
            match value_within(arg, "--listen="@, "--listen"@) {
                Err(message) => ArgsView::Refused(message),
                Ok(value) => args_ask(args, at + 1, Some(value), port),
            }
        } else if behind(arg, "--port="@) is Some {
            match value_within(arg, "--port="@, "--port"@) {
                Err(message) => ArgsView::Refused(message),
                Ok(value) => args_ask(args, at + 1, listen, Some(value)),
            }
        } else {
            ArgsView::Refused("未知参数："@ + arg)
        }
    }
}

/// A variable of the environment.
pub enum Variable {
    Missing,
    /// Its value is no text.
    NotText,
    Text(String),
}

/// A variable of the environment, as a value.
pub enum VariableView {
    Missing,
    NotText,
    Text(Seq<char>),
}

impl View for Variable {
    type V = VariableView;

    open spec fn view(&self) -> VariableView {
        match *self {
            Variable::Missing => VariableView::Missing,
            Variable::NotText => VariableView::NotText,
            Variable::Text(text) => VariableView::Text(text@),
        }
    }
}

/// The address that the environment gives, or why it is refused.
pub open spec fn environment_address(listen: VariableView, port: VariableView) -> Result<
    Seq<char>,
    Seq<char>,
> {
    match listen {
        VariableView::Text(addr) => if trimmed(addr).len() == 0 {
            Err("LISTEN_ADDR 不能为空"@)
        } else {
            Ok(addr)
        },
        VariableView::NotText => Err("LISTEN_ADDR 不是有效文本"@),
        VariableView::Missing => match port {
            VariableView::Text(value) => port_address(trimmed(value), "PORT"@),
            VariableView::NotText => Err("PORT 不是有效文本"@),
            VariableView::Missing => Ok(default_listen_addr()),
        },
    }
}

/// What the service does at its start: it listens on an address, shows its usage, or refuses.
pub enum Start {
    Listen(String),
    Help,
    Refused(String),
}

/// What the service does at its start, as a value.
pub enum StartView {
    Listen(Seq<char>),
    Help,
    Refused(Seq<char>),
}

impl View for Start {
    type V = StartView;

    open spec fn view(&self) -> StartView {
        match *self {
            Start::Listen(addr) => StartView::Listen(addr@),
            Start::Help => StartView::Help,
            Start::Refused(message) => StartView::Refused(message@),
        }
    }
}

/// An address, or a refusal.
pub open spec fn start_of(r: Result<Seq<char>, Seq<char>>) -> StartView {
    match r {
        Ok(addr) => StartView::Listen(addr),
        Err(message) => StartView::Refused(message),
    }
}

/// What the service does at its start. Arguments come before the environment, and an address comes
/// before a port.
pub open spec fn started(args: Seq<Seq<char>>, listen: VariableView, port: VariableView) -> StartView {
    match args_ask(args, 0, None, None) {
        ArgsView::Help => StartView::Help,
        ArgsView::Refused(message) => StartView::Refused(message),
        ArgsView::Given(Some(_), Some(_)) => StartView::Refused("--listen 和 --port 不能同时使用"@),
        ArgsView::Given(Some(addr), None) => StartView::Listen(addr),
        ArgsView::Given(None, Some(value)) => start_of(port_address(value, "--port"@)),
        ArgsView::Given(None, None) => start_of(environment_address(listen, port)),
    }
}

fn to_start(r: Result<String, String>) -> (s: Start)
    ensures
        s@ == start_of(result_view(r)),
{
    match r {
        Ok(addr) => Start::Listen(addr),
        Err(message) => Start::Refused(message),
    }
}

fn read_environment(listen: Variable, port: Variable) -> (r: Result<String, String>)
    ensures
        result_view(r) == environment_address(listen@, port@),
{
    match listen {
        Variable::Text(addr) => if addr.as_str().trim().is_empty() {
            Err("LISTEN_ADDR 不能为空".to_owned())
        } else {
            Ok(addr)
        },
        Variable::NotText => Err("LISTEN_ADDR 不是有效文本".to_owned()),
        Variable::Missing => match port {
            Variable::Text(value) => port_addr(value.as_str().trim(), "PORT"),
            Variable::NotText => Err("PORT 不是有效文本".to_owned()),
            Variable::Missing => Ok("127.0.0.1:3000".to_owned()),
        },
    }
}

/// An optional text as a value.
pub open spec fn optional(text: Option<String>) -> Option<Seq<char>> {
    match text {
        Some(t) => Some(t@),
        None => None,
    }
}

/// Finds out where to listen, from the arguments behind the name of the program and from two
/// variables of the environment.
pub fn resolve_listen_addr(args: &Vec<String>, listen_addr: Variable, port_number: Variable) -> (r:
    Start)
    ensures
        r@ == started(views(args@), listen_addr@, port_number@),
{
    let ghost all = views(args@);
    let mut listen: Option<String> = None;
    let mut port: Option<String> = None;
    let mut at: usize = 0;
    let count: usize = args.len();
    proof {
        reveal_strlit("--listen=");
        reveal_strlit("--port=");
    }
    while at < count
        invariant
            at <= count,
            count == args@.len(),
            all == views(args@),
            "--listen="@.len() > 0,
            "--port="@.len() > 0,
            args_ask(all, 0, None, None) == args_ask(
                all,
                at as int,
                optional(listen),
                optional(port),
            ),
        decreases count - at,
    {
        let arg = args[at].as_str();
        if same(arg, "--listen") {
            match required_arg(args, at + 1, "--listen") {
                Err(message) => return Start::Refused(message),
                Ok(value) => {
                    listen = Some(value);
                },
            }
            at = at + 2;
        } else if same(arg, "--port") {
            match required_arg(args, at + 1, "--port") {
                Err(message) => return Start::Refused(message),
                Ok(value) => {
                    port = Some(value);
                },
            }
            at = at + 2;
        } else if same(arg, "-h") || same(arg, "--help") {
            return Start::Help;
        } else if strip_front(arg, "--listen=").is_some() {
            match joined_value(arg, "--listen=", "--listen") {
                Err(message) => return Start::Refused(message),
                Ok(value) => {
                    listen = Some(value);
                },
            }
            at = at + 1;
        } else if strip_front(arg, "--port=").is_some() {
            match joined_value(arg, "--port=", "--port") {
                Err(message) => return Start::Refused(message),
                Ok(value) => {
                    port = Some(value);
                },
            }
            at = at + 1;
        } else {
            return Start::Refused(join2("未知参数：", arg));
        }
    }
    match listen {
        Some(addr) => match port {
            Some(_) => Start::Refused("--listen 和 --port 不能同时使用".to_owned()),
            None => Start::Listen(addr),
        },
        None => match port {
            Some(value) => to_start(port_addr(&value, "--port")),
            None => to_start(read_environment(listen_addr, port_number)),
        },
    }
}

/// The last place of a character in the first `n` characters of a text; -1 where it does not stand
/// there.
pub open spec fn last_place(s: Seq<char>, c: char, n: int) -> int
    decreases n,
{
    if n <= 0 {
        -1
    } else if s[n - 1] == c {
        n - 1
    } else {
        last_place(s, c, n - 1)
    }
}

/// The port of an address: what stands behind its last colon, or the usual one.
pub open spec fn port_in(addr: Seq<char>) -> int {
    let at = last_place(addr, ':', addr.len() as int);
    if at < 0 {
        3000
    } else {
        match port_of(addr.subrange(at + 1, addr.len() as int)) {
            Some(port) => port,
            None => 3000,
        }
    }
}

/// The origin under which the service is reached unless another is given.
pub fn default_passkey_origin(addr: &str) -> (r: String)
    ensures
        r@ == "http://localhost:"@ + nat_text(port_in(addr@)),
{
    let chars = chars_of(addr);
    let mut n: usize = chars.len();
    while n > 0 && chars[n - 1] != ':'
        invariant
            n <= chars.len(),
            last_place(chars@, ':', chars@.len() as int) == last_place(chars@, ':', n as int),
        decreases n,
    {
        n = n - 1;
    }
    let port: u16 = if n == 0 {
        3000
    } else {
        let mut rest = String::new();
        let mut i: usize = n;
        proof {
            assert(rest@ =~= chars@.subrange(n as int, n as int));
        }
        while i < chars.len()
            invariant
                n <= i <= chars.len(),
                rest@ == chars@.subrange(n as int, i as int),
            decreases chars.len() - i,
        {
            rest.push(chars[i]);
            proof {
                assert(chars@.subrange(n as int, i + 1) =~= chars@.subrange(
                    n as int,
                    i as int,
                ).push(chars@[i as int]));
            }
            i = i + 1;
        }
        match parse_u16(&rest) {
            Some(port) => port,
            None => 3000,
        }
    };
    join2("http://localhost:", &nat_to_text(port as u128))
}

/// Arguments come first: where an address or a port is given by them, the environment does not
/// count.
pub proof fn arguments_come_first(
    args: Seq<Seq<char>>,
    listen: VariableView,
    port: VariableView,
    other_listen: VariableView,
    other_port: VariableView,
)
    requires
        args_ask(args, 0, None, None) != ArgsView::Given(None, None),
    ensures
        started(args, listen, port) == started(args, other_listen, other_port),
{
}

/// An address in the environment comes before a port there, and without either the service listens
/// on the local machine alone.
pub proof fn address_comes_before_port(addr: Seq<char>, port: VariableView)
    requires
        trimmed(addr).len() > 0,
    ensures
        started(Seq::empty(), VariableView::Text(addr), port) == StartView::Listen(addr),
        started(Seq::empty(), VariableView::Missing, VariableView::Missing) == StartView::Listen(
            default_listen_addr(),
        ),
{
}

} // verus!
