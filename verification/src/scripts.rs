//! The commands that are run inside the container of an app.

use vstd::prelude::*;
use crate::number::{decimal, decimal_of};
use crate::shell::{shell_quote, shell_quoted};
use crate::split::{join, join_with, nonempty_trimmed, nonempty_trimmed_of};
use crate::text::{
    cut_end, cut_ends, cut_start, outcome, push_text, same, trim, trimmed, CharClass,
};

verus! {

pub const START_COMMAND_PATH: &'static str = "/etc/psht-start-command";

pub const APP_SERVICE_NAME: &'static str = "psht-app.service";

pub const APP_SERVICE_UNIT_PATH: &'static str = "/etc/systemd/system/psht-app.service";

pub const APP_SERVICE_RUNNER_PATH: &'static str = "/usr/local/bin/psht-app-runner";

pub const APP_PROCESS_PID_PATH: &'static str = "/var/psht/app.pid";

pub const APP_PROCESS_LOG_PATH: &'static str = "/var/psht/app.log";

pub const INSTALL_LOG_PATH: &'static str = "/var/psht/install.log";

pub const APP_PROCESS_POLL_SLEEP: &'static str = "0.2";

pub const STOP_TERM_CHECKS: u32 = 40;

pub const STOP_KILL_CHECKS: u32 = 10;

pub const START_WAIT_CHECKS: u32 = 25;

pub const EARLY_EXIT_GRACE_SECS: u64 = 3;

pub const APP_LOG_TAIL_LINES: u32 = 40;

pub const INSTALL_LOG_TAIL_LINES: u32 = 80;

pub const TCP_READY_TIMEOUT_SECS: u64 = 60;

pub const TAILSCALE_STATE_SEED_PATH: &'static str = "/var/lib/psht-tailscale-state";

/// The unit of the app's service. It starts again whenever it ends.
pub open spec fn service_unit() -> Seq<char> {
    r#"[Unit]
Description=psht application process
After=network-online.target
Wants=network-online.target

[Service]
Type=simple
WorkingDirectory=/app
ExecStart="#@
        + APP_SERVICE_RUNNER_PATH@
        + r#"
Restart=always
RestartSec=2
KillMode=control-group
StandardOutput=append:"#@
        + APP_PROCESS_LOG_PATH@ + "\nStandardError=append:"@ + APP_PROCESS_LOG_PATH@
        + r#"

[Install]
WantedBy=multi-user.target
"#@
}

pub fn app_service_unit_content() -> (r: String)
    ensures
        r@ == service_unit(),
{
    let mut r = String::from_str(r#"[Unit]
Description=psht application process
After=network-online.target
Wants=network-online.target

[Service]
Type=simple
WorkingDirectory=/app
ExecStart="#);
    r.append(APP_SERVICE_RUNNER_PATH);
    r.append(r#"
Restart=always
RestartSec=2
KillMode=control-group
StandardOutput=append:"#);
    r.append(APP_PROCESS_LOG_PATH);
    r.append("\nStandardError=append:");
    r.append(APP_PROCESS_LOG_PATH);
    r.append(r#"

[Install]
WantedBy=multi-user.target
"#);
    r
}

/// The command that writes the unit of the app's service.
pub fn write_app_service_unit_cmd() -> (r: String)
    ensures
        r@ == "mkdir -p /etc/systemd/system /var/psht && printf '%s' "@ + shell_quoted(service_unit())
            + " > "@ + APP_SERVICE_UNIT_PATH@ + " && chmod 644 "@ + APP_SERVICE_UNIT_PATH@,
{
    let unit = app_service_unit_content();
    let escaped = shell_quote(unit.as_str());
    let mut r = String::from_str("mkdir -p /etc/systemd/system /var/psht && printf '%s' ");
    r.append(escaped.as_str());
    r.append(" > ");
    r.append(APP_SERVICE_UNIT_PATH);
    r.append(" && chmod 644 ");
    r.append(APP_SERVICE_UNIT_PATH);
    r
}

/// The command that prints `alive` where the process that was last launched runs.
pub open spec fn process_probe() -> Seq<char> {
    "if [ ! -s "@ + APP_PROCESS_PID_PATH@ + " ]; then exit 0; fi\npid=\"$(cat "@
        + APP_PROCESS_PID_PATH@
        + r#" 2>/dev/null | tr -d '[:space:]')"
case "$pid" in
  ''|*[!0-9]*) exit 0 ;;
esac
if ! kill -0 "$pid" 2>/dev/null; then
  exit 0
fi
mtime="$(stat -c %Y "#@
        + APP_PROCESS_PID_PATH@
        + r#" 2>/dev/null || true)"
uptime="$(cut -d. -f1 /proc/uptime 2>/dev/null || true)"
now="$(date +%s 2>/dev/null || true)"
if [ -n "$mtime" ] && [ -n "$uptime" ] && [ -n "$now" ]; then
  case "$mtime:$uptime:$now" in
    *[!0-9:]*)
      ;;
    *)
      boot="$((now - uptime))"
      if [ "$mtime" -lt "$boot" ]; then
        exit 0
      fi
      ;;
  esac
fi
echo alive
true"#@
}

pub fn app_process_probe_cmd() -> (r: String)
    ensures
        r@ == process_probe(),
{
    let mut r = String::from_str("if [ ! -s ");
    r.append(APP_PROCESS_PID_PATH);
    r.append(" ]; then exit 0; fi\npid=\"$(cat ");
    r.append(APP_PROCESS_PID_PATH);
    r.append(r#" 2>/dev/null | tr -d '[:space:]')"
case "$pid" in
  ''|*[!0-9]*) exit 0 ;;
esac
if ! kill -0 "$pid" 2>/dev/null; then
  exit 0
fi
mtime="$(stat -c %Y "#);
    r.append(APP_PROCESS_PID_PATH);
    r.append(r#" 2>/dev/null || true)"
uptime="$(cut -d. -f1 /proc/uptime 2>/dev/null || true)"
now="$(date +%s 2>/dev/null || true)"
if [ -n "$mtime" ] && [ -n "$uptime" ] && [ -n "$now" ]; then
  case "$mtime:$uptime:$now" in
    *[!0-9:]*)
      ;;
    *)
      boot="$((now - uptime))"
      if [ "$mtime" -lt "$boot" ]; then
        exit 0
      fi
      ;;
  esac
fi
echo alive
true"#);
    r
}

/// The command that stops the process that was last launched: it asks, waits, and
/// kills; it fails where the process is still there after that.
pub open spec fn stop_process(term_checks: u32, kill_checks: u32, poll_sleep: Seq<char>) -> Seq<char> {
    "if [ ! -s "@ + APP_PROCESS_PID_PATH@ + " ]; then rm -f "@ + APP_PROCESS_PID_PATH@
        + "; exit 0; fi\npid=\"$(cat "@ + APP_PROCESS_PID_PATH@
        + r#" 2>/dev/null | tr -d '[:space:]')"
case "$pid" in
  ''|*[!0-9]*) rm -f "#@
        + APP_PROCESS_PID_PATH@
        + r#"; exit 0 ;;
esac
kill -TERM -- "-$pid" 2>/dev/null || kill -TERM "$pid" 2>/dev/null || true
i=0
while kill -0 "$pid" 2>/dev/null; do
  i=$((i + 1))
  if [ "$i" -ge "#@
        + decimal(term_checks as nat)
        + r#" ]; then
    kill -KILL -- "-$pid" 2>/dev/null || kill -KILL "$pid" 2>/dev/null || true
    break
  fi
  sleep "#@
        + poll_sleep
        + r#"
done
j=0
while kill -0 "$pid" 2>/dev/null; do
  j=$((j + 1))
  if [ "$j" -ge "#@
        + decimal(kill_checks as nat)
        + r#" ]; then
    echo "app process $pid did not exit after SIGTERM+SIGKILL" >&2
    exit 1
  fi
  sleep "#@
        + poll_sleep + r#"
done
rm -f "#@ + APP_PROCESS_PID_PATH@
}

pub fn stop_app_process_cmd_with_limits(term_checks: u32, kill_checks: u32, poll_sleep: &str) -> (r: String)
    ensures
        r@ == stop_process(term_checks, kill_checks, poll_sleep@),
{
    let mut r = String::from_str("if [ ! -s ");
    r.append(APP_PROCESS_PID_PATH);
    r.append(" ]; then rm -f ");
    r.append(APP_PROCESS_PID_PATH);
    r.append("; exit 0; fi\npid=\"$(cat ");
    r.append(APP_PROCESS_PID_PATH);
    r.append(r#" 2>/dev/null | tr -d '[:space:]')"
case "$pid" in
  ''|*[!0-9]*) rm -f "#);
    r.append(APP_PROCESS_PID_PATH);
    r.append(r#"; exit 0 ;;
esac
kill -TERM -- "-$pid" 2>/dev/null || kill -TERM "$pid" 2>/dev/null || true
i=0
while kill -0 "$pid" 2>/dev/null; do
  i=$((i + 1))
  if [ "$i" -ge "#);
    let term_checks_text = decimal_of(term_checks as u64);
    r.append(term_checks_text.as_str());
    r.append(r#" ]; then
    kill -KILL -- "-$pid" 2>/dev/null || kill -KILL "$pid" 2>/dev/null || true
    break
  fi
  sleep "#);
    r.append(poll_sleep);
    r.append(r#"
done
j=0
while kill -0 "$pid" 2>/dev/null; do
  j=$((j + 1))
  if [ "$j" -ge "#);
    let kill_checks_text = decimal_of(kill_checks as u64);
    r.append(kill_checks_text.as_str());
    r.append(r#" ]; then
    echo "app process $pid did not exit after SIGTERM+SIGKILL" >&2
    exit 1
  fi
  sleep "#);
    r.append(poll_sleep);
    r.append(r#"
done
rm -f "#);
    r.append(APP_PROCESS_PID_PATH);
    r
}

pub fn stop_app_process_cmd() -> (r: String)
    ensures
        r@ == stop_process(STOP_TERM_CHECKS, STOP_KILL_CHECKS, APP_PROCESS_POLL_SLEEP@),
{
    stop_app_process_cmd_with_limits(STOP_TERM_CHECKS, STOP_KILL_CHECKS, APP_PROCESS_POLL_SLEEP)
}

/// The command that stops whatever listens on a port, in the same way.
pub open spec fn stop_listeners(port: u16, term_checks: u32, kill_checks: u32, poll_sleep: Seq<char>) -> Seq<char> {
    "if ! command -v ss >/dev/null 2>&1; then exit 0; fi\npids=\"$(ss -ltnp \"sport = :"@
        + decimal(port as nat)
        + r#"" 2>/dev/null | sed -n 's/.*pid=\([0-9][0-9]*\).*/\1/p' | sort -u)"
[ -z "$pids" ] && exit 0
for pid in $pids; do
  kill -TERM -- "-$pid" 2>/dev/null || kill -TERM "$pid" 2>/dev/null || true
done
i=0
while :; do
  remaining=""
  for pid in $pids; do
    if kill -0 "$pid" 2>/dev/null; then
      remaining="$remaining $pid"
    fi
  done
  [ -z "$remaining" ] && break
  i=$((i + 1))
  if [ "$i" -ge "#@
        + decimal(term_checks as nat)
        + r#" ]; then
    for pid in $remaining; do
      kill -KILL -- "-$pid" 2>/dev/null || kill -KILL "$pid" 2>/dev/null || true
    done
    break
  fi
  sleep "#@
        + poll_sleep
        + r#"
done
j=0
while :; do
  remaining=""
  for pid in $pids; do
    if kill -0 "$pid" 2>/dev/null; then
      remaining="$remaining $pid"
    fi
  done
  [ -z "$remaining" ] && break
  j=$((j + 1))
  if [ "$j" -ge "#@
        + decimal(kill_checks as nat) + " ]; then\n    echo \"listener process(es) on port "@
        + decimal(port as nat) + r#" did not exit:$remaining" >&2
    exit 1
  fi
  sleep "#@
        + poll_sleep + "\ndone"@
}

pub fn stop_port_listeners_cmd_with_limits(port: u16, term_checks: u32, kill_checks: u32, poll_sleep: &str) -> (r: String)
    ensures
        r@ == stop_listeners(port, term_checks, kill_checks, poll_sleep@),
{
    let mut r = String::from_str("if ! command -v ss >/dev/null 2>&1; then exit 0; fi\npids=\"$(ss -ltnp \"sport = :");
    let port_text = decimal_of(port as u64);
    r.append(port_text.as_str());
    r.append(r#"" 2>/dev/null | sed -n 's/.*pid=\([0-9][0-9]*\).*/\1/p' | sort -u)"
[ -z "$pids" ] && exit 0
for pid in $pids; do
  kill -TERM -- "-$pid" 2>/dev/null || kill -TERM "$pid" 2>/dev/null || true
done
i=0
while :; do
  remaining=""
  for pid in $pids; do
    if kill -0 "$pid" 2>/dev/null; then
      remaining="$remaining $pid"
    fi
  done
  [ -z "$remaining" ] && break
  i=$((i + 1))
  if [ "$i" -ge "#);
    let term_checks_text = decimal_of(term_checks as u64);
    r.append(term_checks_text.as_str());
    r.append(r#" ]; then
    for pid in $remaining; do
      kill -KILL -- "-$pid" 2>/dev/null || kill -KILL "$pid" 2>/dev/null || true
    done
    break
  fi
  sleep "#);
    r.append(poll_sleep);
    r.append(r#"
done
j=0
while :; do
  remaining=""
  for pid in $pids; do
    if kill -0 "$pid" 2>/dev/null; then
      remaining="$remaining $pid"
    fi
  done
  [ -z "$remaining" ] && break
  j=$((j + 1))
  if [ "$j" -ge "#);
    let kill_checks_text = decimal_of(kill_checks as u64);
    r.append(kill_checks_text.as_str());
    r.append(" ]; then\n    echo \"listener process(es) on port ");
    r.append(port_text.as_str());
    r.append(r#" did not exit:$remaining" >&2
    exit 1
  fi
  sleep "#);
    r.append(poll_sleep);
    r.append("\ndone");
    r
}

pub fn stop_port_listeners_cmd(port: u16) -> (r: String)
    ensures
        r@ == stop_listeners(port, STOP_TERM_CHECKS, STOP_KILL_CHECKS, APP_PROCESS_POLL_SLEEP@),
{
    stop_port_listeners_cmd_with_limits(
        port,
        STOP_TERM_CHECKS,
        STOP_KILL_CHECKS,
        APP_PROCESS_POLL_SLEEP,
    )
}

/// The command that stops the app's service.
pub open spec fn stop_service() -> Seq<char> {
    "systemctl stop "@ + APP_SERVICE_NAME@ + " >/dev/null 2>&1 || true"@
}

pub fn stop_service_cmd() -> (r: String)
    ensures
        r@ == stop_service(),
{
    let mut r = String::from_str("systemctl stop ");
    r.append(APP_SERVICE_NAME);
    r.append(" >/dev/null 2>&1 || true");
    r
}

/// The commands that stop the app, in their order.
pub fn stop_app_commands(port: u16) -> (r: Vec<String>)
    ensures
        r.deep_view() == seq![
            stop_service(),
            stop_process(STOP_TERM_CHECKS, STOP_KILL_CHECKS, APP_PROCESS_POLL_SLEEP@),
            stop_listeners(port, STOP_TERM_CHECKS, STOP_KILL_CHECKS, APP_PROCESS_POLL_SLEEP@),
        ],
{
    let mut r: Vec<String> = Vec::new();
    push_text(&mut r, stop_service_cmd());
    push_text(&mut r, stop_app_process_cmd());
    push_text(&mut r, stop_port_listeners_cmd(port));
    assert(r.deep_view() =~= seq![
        stop_service(),
        stop_process(STOP_TERM_CHECKS, STOP_KILL_CHECKS, APP_PROCESS_POLL_SLEEP@),
        stop_listeners(port, STOP_TERM_CHECKS, STOP_KILL_CHECKS, APP_PROCESS_POLL_SLEEP@),
    ]);
    r
}

/// The command that prints `active` where the app's service runs.
pub open spec fn service_probe() -> Seq<char> {
    "if systemctl is-active --quiet "@ + APP_SERVICE_NAME@ + "; then echo active; fi; true"@
}

pub fn service_probe_cmd() -> (r: String)
    ensures
        r@ == service_probe(),
{
    let mut r = String::from_str("if systemctl is-active --quiet ");
    r.append(APP_SERVICE_NAME);
    r.append("; then echo active; fi; true");
    r
}

/// The command that prints `ready` where something listens on the port.
pub open spec fn listener_probe(port: u16) -> Seq<char> {
    "if ss -ltn \"sport = :"@ + decimal(port as nat)
        + "\" 2>/dev/null | grep -q LISTEN; then echo ready; fi; true"@
}

pub fn listener_probe_cmd(port: u16) -> (r: String)
    ensures
        r@ == listener_probe(port),
{
    let mut r = String::from_str("if ss -ltn \"sport = :");
    let port_text = decimal_of(port as u64);
    r.append(port_text.as_str());
    r.append("\" 2>/dev/null | grep -q LISTEN; then echo ready; fi; true");
    r
}

/// Whether a probe printed the word.
pub fn probe_says(output: &str, word: &str) -> (r: bool)
    ensures
        r == (trim(output@) == word@),
{
    same(trimmed(output), word)
}

/// Whether a cutover goes on though the app could not be stopped: its container had
/// stopped before, or has by now.
pub fn should_tolerate_cutover_stop_failure(
    was_running_before_stop: bool,
    running_after_failure: Option<bool>,
) -> (r: bool)
    ensures
        r == (!was_running_before_stop || running_after_failure == Some(false)),
{
    if !was_running_before_stop {
        return true;
    }
    match running_after_failure {
        Some(running) => !running,
        None => false,
    }
}

/// The command that prints the last lines of a log.
pub open spec fn log_tail(path: Seq<char>, lines: u32) -> Seq<char> {
    "if [ -f "@ + path + " ]; then tail -n "@ + decimal(lines as nat) + " "@ + path
        + " 2>/dev/null || true; fi"@
}

pub fn log_tail_cmd(path: &str, lines: u32) -> (r: String)
    ensures
        r@ == log_tail(path@, lines),
{
    let mut r = String::from_str("if [ -f ");
    r.append(path);
    r.append(" ]; then tail -n ");
    let lines_text = decimal_of(lines as u64);
    r.append(lines_text.as_str());
    r.append(" ");
    r.append(path);
    r.append(" 2>/dev/null || true; fi");
    r
}

/// What is left of the output of a command without white space at its ends, if
/// anything is.
pub open spec fn excerpt(output: Seq<char>) -> Option<Seq<char>> {
    if trim(output).len() == 0 {
        None
    } else {
        Some(trim(output))
    }
}

pub fn log_excerpt(output: &str) -> (r: Option<String>)
    ensures
        r.deep_view() == excerpt(output@),
{
    let text = trimmed(output);
    if text.is_empty() {
        None
    } else {
        Some(text.to_owned())
    }
}

/// A message with the last lines of a log behind it, where there are some.
pub open spec fn with_log(message: Seq<char>, heading: Seq<char>, log: Option<Seq<char>>) -> Seq<char> {
    match log {
        Some(log) => message + heading + log,
        None => message,
    }
}

fn append_log(message: &mut String, heading: &str, log: &Option<String>)
    ensures
        final(message)@ == with_log(old(message)@, heading@, log.deep_view()),
{
    if let Some(log) = log {
        message.append(heading);
        message.append(log.as_str());
    }
}

/// The error of an app that did not stay up.
pub fn launch_failed_error(app: &str, cmd: &str, log: &Option<String>) -> (r: String)
    ensures
        r@ == with_log(
            "app process failed to stay up after launch (start command: "@ + trim(cmd@)
                + "); check logs with: psht logs "@ + app@,
            "\nLast app log lines:\n"@,
            log.deep_view(),
        ),
{
    let mut r = String::from_str("app process failed to stay up after launch (start command: ");
    r.append(trimmed(cmd));
    r.append("); check logs with: psht logs ");
    r.append(app);
    append_log(&mut r, "\nLast app log lines:\n", log);
    r
}

/// What follows the launch of an app.
#[derive(Clone, Copy, PartialEq, Eq, Structural, Debug)]
pub enum LaunchStep {
    Up,
    /// See whether the service of the app is active, and pause where it is not.
    Check,
    Failed,
}

/// What follows a look at an app that was launched.
pub open spec fn spec_launch_step(checks: u32, up: bool) -> LaunchStep {
    if up {
        LaunchStep::Up
    } else if checks < START_WAIT_CHECKS {
        LaunchStep::Check
    } else {
        LaunchStep::Failed
    }
}

/// What follows the launch of an app, after so many looks at its service.
pub fn launch_step(checks: u32, up: bool) -> (r: LaunchStep)
    ensures
        r == spec_launch_step(checks, up),
{
    if up {
        LaunchStep::Up
    } else if checks < START_WAIT_CHECKS {
        LaunchStep::Check
    } else {
        LaunchStep::Failed
    }
}

/// What follows a look at the port of an app that is coming up.
#[derive(Clone, Copy, PartialEq, Eq, Structural, Debug)]
pub enum ListenerStep {
    Ready,
    /// Find out whether the process still runs; give up where it does not.
    CheckProcess,
    TimedOut,
    Wait,
}

/// What follows a look at the port. `process_checked` is set once the process was found
/// running after this look.
pub open spec fn spec_listener_step(
    ready: bool,
    elapsed_secs: u64,
    process_checked: bool,
    timeout_secs: u64,
) -> ListenerStep {
    if ready {
        ListenerStep::Ready
    } else if elapsed_secs >= EARLY_EXIT_GRACE_SECS && !process_checked {
        ListenerStep::CheckProcess
    } else if elapsed_secs >= timeout_secs {
        ListenerStep::TimedOut
    } else {
        ListenerStep::Wait
    }
}

pub fn listener_step(
    ready: bool,
    elapsed_secs: u64,
    process_checked: bool,
    timeout_secs: u64,
) -> (r: ListenerStep)
    ensures
        r == spec_listener_step(ready, elapsed_secs, process_checked, timeout_secs),
{
    if ready {
        ListenerStep::Ready
    } else if elapsed_secs >= EARLY_EXIT_GRACE_SECS && !process_checked {
        ListenerStep::CheckProcess
    } else if elapsed_secs >= timeout_secs {
        ListenerStep::TimedOut
    } else {
        ListenerStep::Wait
    }
}

/// The error of an app whose process ended before its port was ready.
pub fn process_exited_error(
    label: &str,
    port: u16,
    start_command: &Option<String>,
    log: &Option<String>,
) -> (r: String)
    ensures
        r@ == with_log(
            with_log(
                label@ + " failed before TCP :"@ + decimal(port as nat)
                    + " became ready because app process exited"@,
                "\nStart command: "@,
                match start_command {
                    Some(command) => Some(trim(command@)),
                    None => None,
                },
            ),
            "\nLast app log lines:\n"@,
            log.deep_view(),
        ),
{
    let mut r = label.to_owned();
    r.append(" failed before TCP :");
    let port = decimal_of(port as u64);
    r.append(port.as_str());
    r.append(" became ready because app process exited");
    if let Some(command) = start_command {
        r.append("\nStart command: ");
        r.append(trimmed(command.as_str()));
    }
    append_log(&mut r, "\nLast app log lines:\n", log);
    r
}

/// The error of an app whose port was not ready in time.
pub open spec fn listener_timeout(label: Seq<char>, port: u16, timeout_secs: u64) -> Seq<char> {
    label + " timed out after "@ + decimal(timeout_secs as nat) + "s waiting for TCP :"@
        + decimal(port as nat)
}

pub fn listener_timeout_error(label: &str, port: u16, timeout_secs: u64) -> (r: String)
    ensures
        r@ == listener_timeout(label@, port, timeout_secs),
{
    let mut r = label.to_owned();
    r.append(" timed out after ");
    let timeout_secs_text = decimal_of(timeout_secs as u64);
    r.append(timeout_secs_text.as_str());
    r.append("s waiting for TCP :");
    let port_text = decimal_of(port as u64);
    r.append(port_text.as_str());
    r
}

/// The command that keeps the start command of an app.
pub fn write_start_command_cmd(cmd: &str) -> (r: Result<String, String>)
    ensures
        outcome(r) == if trim(cmd@).len() == 0 {
            Err::<Seq<char>, Seq<char>>("start command is empty"@)
        } else {
            Ok(
                "mkdir -p /etc && printf '%s\\n' "@ + shell_quoted(trim(cmd@)) + " > "@
                    + START_COMMAND_PATH@,
            )
        },
{
    let cmd = trimmed(cmd);
    if cmd.is_empty() {
        return Err(String::from_str("start command is empty"));
    }
    let escaped = shell_quote(cmd);
    let mut r = String::from_str("mkdir -p /etc && printf '%s\\n' ");
    r.append(escaped.as_str());
    r.append(" > ");
    r.append(START_COMMAND_PATH);
    Ok(r)
}

/// The command that prints the start command of an app.
pub open spec fn start_command_query() -> Seq<char> {
    "cat "@ + START_COMMAND_PATH@ + " 2>/dev/null || true"@
}

pub fn read_start_command_cmd() -> (r: String)
    ensures
        r@ == start_command_query(),
{
    let mut r = String::from_str("cat ");
    r.append(START_COMMAND_PATH);
    r.append(" 2>/dev/null || true");
    r
}

/// The start command that was printed.
pub open spec fn start_command_in(app: Seq<char>, output: Seq<char>) -> Result<
    Seq<char>,
    Seq<char>,
> {
    if trim(output).len() == 0 {
        Err(
            "missing start command metadata at "@ + START_COMMAND_PATH@ + "; redeploy app '"@ + app
                + "'"@,
        )
    } else {
        Ok(trim(output))
    }
}

/// A start command that was kept is the one that is read, but for white space at its
/// ends.
pub proof fn start_commands_read_back(app: Seq<char>, cmd: Seq<char>)
    requires
        trim(cmd).len() > 0,
    ensures
        start_command_in(app, trim(cmd) + "\n"@) == Ok::<Seq<char>, Seq<char>>(trim(cmd)),
{
    let kept = trim(cmd);
    let text = kept + "\n"@;
    cut_ends(cmd, CharClass::White);
    reveal_strlit("\n");
    assert(text[0] == kept[0]);
    assert(text.last() == '\n');
    assert(text.drop_last() =~= kept);
    assert(cut_start(text, CharClass::White) == text);
    assert(cut_end(kept, CharClass::White) == kept);
    assert(trim(text) == kept);
}

pub fn read_start_command(app: &str, output: &str) -> (r: Result<String, String>)
    ensures
        outcome(r) == start_command_in(app@, output@),
{
    let cmd = trimmed(output);
    if cmd.is_empty() {
        let mut message = String::from_str("missing start command metadata at ");
        message.append(START_COMMAND_PATH);
        message.append("; redeploy app '");
        message.append(app);
        message.append("'");
        return Err(message);
    }
    Ok(cmd.to_owned())
}

/// A command as it is run in the directory of the app, if it is one.
pub open spec fn workdir_command(command: Seq<char>) -> Option<Seq<char>> {
    if trim(command).len() == 0 {
        None
    } else {
        Some("cd /app && "@ + trim(command))
    }
}

pub fn app_workdir_command(command: &str) -> (r: Option<String>)
    ensures
        r.deep_view() == workdir_command(command@),
{
    let command = trimmed(command);
    if command.is_empty() {
        None
    } else {
        let mut r = String::from_str("cd /app && ");
        r.append(command);
        Some(r)
    }
}

/// The command of a hook, where the app has one.
pub fn hook_command(command: Option<&str>) -> (r: Option<String>)
    ensures
        r.deep_view() == match command {
            Some(command) => workdir_command(command@),
            None => None,
        },
{
    match command {
        Some(command) => app_workdir_command(command),
        None => None,
    }
}

/// The error of a hook that failed.
pub open spec fn hook_failure(phase: Seq<char>, err: Seq<char>) -> Seq<char> {
    phase + " hook failed: "@ + err
}

pub fn hook_failed_error(phase: &str, err: &str) -> (r: String)
    ensures
        r@ == hook_failure(phase@, err@),
{
    let mut r = phase.to_owned();
    r.append(" hook failed: ");
    r.append(err);
    r
}

/// A command whose output is kept in the install log, and whose result is its own.
pub open spec fn logged_install(command: Seq<char>) -> Seq<char> {
    r#"mkdir -p /var/psht
status_file="$(mktemp)"
( "#@ + command
        + "; echo \"$?\" > \"$status_file\" ) 2>&1 | tee "@ + INSTALL_LOG_PATH@
        + r#"
status="$(cat "$status_file" 2>/dev/null || echo 1)"
rm -f "$status_file"
exit "$status""#@
}

pub fn install_command_with_logging(command: &str) -> (r: String)
    ensures
        r@ == logged_install(command@),
{
    let mut r = String::from_str(r#"mkdir -p /var/psht
status_file="$(mktemp)"
( "#);
    r.append(command);
    r.append("; echo \"$?\" > \"$status_file\" ) 2>&1 | tee ");
    r.append(INSTALL_LOG_PATH);
    r.append(r#"
status="$(cat "$status_file" 2>/dev/null || echo 1)"
rm -f "$status_file"
exit "$status""#);
    r
}

/// The error of an install that failed.
pub fn install_failed_error(label: &str, err: &str, log: &Option<String>) -> (r: String)
    ensures
        r@ == with_log(
            label@ + " failed: "@ + err@,
            "\nLast install/build log lines:\n"@,
            log.deep_view(),
        ),
{
    let mut r = label.to_owned();
    r.append(" failed: ");
    r.append(err);
    append_log(&mut r, "\nLast install/build log lines:\n", log);
    r
}

/// The command that installs packages, where there are some.
pub open spec fn apt_command(packages: Seq<Seq<char>>) -> Option<Seq<char>> {
    let named = nonempty_trimmed(packages);
    if named.len() == 0 {
        None
    } else {
        Some(
            "export DEBIAN_FRONTEND=noninteractive && apt-get update -qq && apt-get install -y -qq "@
                + join(named.map_values(|name: Seq<char>| shell_quoted(name)), " "@),
        )
    }
}

pub fn apt_install_command(packages: &Vec<String>) -> (r: Option<String>)
    ensures
        r.deep_view() == apt_command(packages.deep_view()),
{
    let named = nonempty_trimmed_of(packages);
    if named.is_empty() {
        return None;
    }
    let ghost words = named.deep_view().map_values(|name: Seq<char>| shell_quoted(name));
    let mut quoted: Vec<String> = Vec::new();
    let mut i: usize = 0;
    assert(quoted.deep_view() =~= words.take(0));
    while i < named.len()
        invariant
            i <= named@.len(),
            words == named.deep_view().map_values(|name: Seq<char>| shell_quoted(name)),
            quoted.deep_view() == words.take(i as int),
        decreases named.len() - i,
    {
        push_text(&mut quoted, shell_quote(named[i].as_str()));
        i = i + 1;
        assert(words.take(i as int) =~= words.take(i - 1).push(words[i - 1]));
    }
    assert(words.take(i as int) =~= words);
    let mut r = String::from_str(
        "export DEBIAN_FRONTEND=noninteractive && apt-get update -qq && apt-get install -y -qq ",
    );
    let listed = join_with(&quoted, " ");
    r.append(listed.as_str());
    Some(r)
}

/// The error of packages that could not be installed.
pub open spec fn apt_failure(err: Seq<char>) -> Seq<char> {
    "apt package install failed: "@ + err
}

pub fn apt_failed_error(err: &str) -> (r: String)
    ensures
        r@ == apt_failure(err@),
{
    let mut r = String::from_str("apt package install failed: ");
    r.append(err);
    r
}

/// The command that copies the identity of a container to an empty volume.
pub open spec fn seed_state() -> Seq<char> {
    "mkdir -p "@ + TAILSCALE_STATE_SEED_PATH@ + " && if [ -z \"$(ls -A "@
        + TAILSCALE_STATE_SEED_PATH@
        + " 2>/dev/null)\" ]; then if [ -f /var/lib/tailscale/tailscaled.state ]; then cp /var/lib/tailscale/tailscaled.state "@
        + TAILSCALE_STATE_SEED_PATH@ + "/tailscaled.state; fi; fi"@
}

pub fn seed_tailscale_state_cmd() -> (r: String)
    ensures
        r@ == seed_state(),
{
    let mut r = String::from_str("mkdir -p ");
    r.append(TAILSCALE_STATE_SEED_PATH);
    r.append(" && if [ -z \"$(ls -A ");
    r.append(TAILSCALE_STATE_SEED_PATH);
    r.append(" 2>/dev/null)\" ]; then if [ -f /var/lib/tailscale/tailscaled.state ]; then cp /var/lib/tailscale/tailscaled.state ");
    r.append(TAILSCALE_STATE_SEED_PATH);
    r.append("/tailscaled.state; fi; fi");
    r
}

/// The command that keeps how a container was set up.
pub open spec fn keep_setup_hash(setup_hash: Seq<char>) -> Seq<char> {
    "echo -n '"@ + setup_hash + "' > /etc/psht-setup-hash"@
}

pub fn write_setup_hash_cmd(setup_hash: &str) -> (r: String)
    ensures
        r@ == keep_setup_hash(setup_hash@),
{
    let mut r = String::from_str("echo -n '");
    r.append(setup_hash);
    r.append("' > /etc/psht-setup-hash");
    r
}

/// Whether a container was set up in a way, by the output of the command that prints it.
pub fn setup_matches(output: &str, setup_hash: &str) -> (r: bool)
    ensures
        r == (trim(output@) == setup_hash@),
{
    same(trimmed(output), setup_hash)
}

/// A wait for an app to listen ends when it does. The process is looked at once, when it
/// had some time to come up, and before the wait is given up; and it is given up only when
/// its time is over.
pub proof fn waits_for_listeners_end(
    ready: bool,
    elapsed_secs: u64,
    process_checked: bool,
    timeout_secs: u64,
)
    ensures
        ({
            let step = spec_listener_step(ready, elapsed_secs, process_checked, timeout_secs);
            &&& step == ListenerStep::Ready <==> ready
            &&& step == ListenerStep::CheckProcess <==> !ready && elapsed_secs
                >= EARLY_EXIT_GRACE_SECS && !process_checked
            &&& step == ListenerStep::TimedOut ==> elapsed_secs >= timeout_secs
            &&& step == ListenerStep::Wait ==> elapsed_secs < timeout_secs
            &&& process_checked && !ready && elapsed_secs >= timeout_secs ==> step
                == ListenerStep::TimedOut
        }),
{
}

/// A command is run in the directory of the app, and a blank one not at all; packages are
/// installed only where some are named.
pub proof fn blank_commands_are_not_run(command: Seq<char>, packages: Seq<Seq<char>>)
    ensures
        workdir_command(command) is Some <==> trim(command).len() > 0,
        workdir_command(command) is Some ==> workdir_command(command)->0 == "cd /app && "@ + trim(
            command,
        ),
        apt_command(packages) is Some <==> nonempty_trimmed(packages).len() > 0,
        excerpt(command) is Some <==> trim(command).len() > 0,
        excerpt(command) is Some ==> excerpt(command)->0 == trim(command),
{
}

/// A launch has succeeded exactly where the app is up, and has failed only when it was
/// looked at as often as it is to be.
pub proof fn launches_end_up_or_failed(checks: u32, up: bool)
    ensures
        spec_launch_step(checks, up) == LaunchStep::Up <==> up,
        spec_launch_step(checks, up) == LaunchStep::Failed <==> !up && checks
            >= START_WAIT_CHECKS,
        spec_launch_step(checks, up) == LaunchStep::Check <==> !up && checks < START_WAIT_CHECKS,
{
}

} // verus!
