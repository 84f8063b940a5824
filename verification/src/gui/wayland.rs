//! Waiting for the compositor.

use crate::strings;
use crate::unix_path;
use crate::unix_path::UnixPath;
use vstd::prelude::*;
use vstd::string::*;

verus! {

/// What is to be done after looking for the compositor's socket.
#[derive(Clone, Copy, Debug, PartialEq, Eq, Structural)]
pub enum WaitStep {
    Ready,
    /// The time is over.
    GiveUp,
    /// Sleep this many seconds, and look again.
    Sleep { seconds: u64 },
}

/// The seconds before the `attempt`-th look again: doubled each time, up to ten.
pub open spec fn delay(attempt: nat) -> nat
    decreases attempt,
{
    if attempt == 0 {
        1
    } else if 2 * delay((attempt - 1) as nat) < 10 {
        2 * delay((attempt - 1) as nat)
    } else {
        10
    }
}

/// The seconds to sleep: the delay, but not past the end of the waiting time.
pub open spec fn pause(attempt: nat, elapsed: nat, max_wait: nat) -> nat {
    let left = (max_wait - elapsed) as nat;
    if delay(attempt) < left {
        delay(attempt)
    } else {
        left
    }
}

fn delay_of(attempt: u32) -> (r: u64)
    ensures
        r == delay(attempt as nat),
        r <= 10,
{
    let mut n: u64 = 1;
    let mut i: u32 = 0;
    while i < attempt
        invariant
            i <= attempt,
            n == delay(i as nat),
            n <= 10,
        decreases attempt - i,
    {
        i = i + 1;
        if 2 * n < 10 {
            n = 2 * n;
        } else {
            n = 10;
        }
    }
    n
}

/// What is to be done after looking for the socket for the `attempt`-th time, `elapsed` seconds
/// after the first look. `is_socket` tells whether it is there.
pub fn wait_for_wayland_display(attempt: u32, elapsed: u64, max_wait_secs: u64, is_socket: bool) -> (r:
    WaitStep)
    ensures
        is_socket ==> r == WaitStep::Ready,
        !is_socket && elapsed >= max_wait_secs ==> r == WaitStep::GiveUp,
        !is_socket && elapsed < max_wait_secs ==> (r matches WaitStep::Sleep { seconds } && seconds
            == pause(attempt as nat, elapsed as nat, max_wait_secs as nat)),
{
    if is_socket {
        return WaitStep::Ready;
    }
    if elapsed >= max_wait_secs {
        return WaitStep::GiveUp;
    }
    let d: u64 = delay_of(attempt);
    let left: u64 = max_wait_secs - elapsed;
    WaitStep::Sleep {
        seconds: if d < left {
            d
        } else {
            left
        },
    }
}

/// The path of the compositor's socket.
pub fn display_socket(xdg_runtime_dir: &Option<String>, wayland_display: &Option<String>) -> (r:
    Result<UnixPath, String>)
    ensures
        match *xdg_runtime_dir {
            None => r matches Err(e) && e@ == "XDG_RUNTIME_DIR is not set"@,
            Some(dir) => r matches Ok(p) && p@ == unix_path::join(
                vstd::utf8::encode_utf8(dir@),
                vstd::utf8::encode_utf8(
                    match *wayland_display {
                        Some(d) => d@,
                        None => "wayland-0"@,
                    },
                ),
            ),
        },
{
    match xdg_runtime_dir {
        None => Err("XDG_RUNTIME_DIR is not set".to_owned()),
        Some(dir) => {
            let base: UnixPath = UnixPath::from_text(dir.as_str());
            match wayland_display {
                Some(d) => Ok(base.join_text(d.as_str())),
                None => Ok(base.join_text("wayland-0")),
            }
        },
    }
}

/// What is said when the compositor did not come up.
pub fn timeout_message(socket: &UnixPath, elapsed: u64) -> (r: String)
    ensures
        r@ == "Wayland display "@ + unix_path::shown(socket@) + " not available after "@
            + strings::decimal(elapsed as nat) + "s"@,
{
    let mut out: String = "Wayland display ".to_owned();
    out.append(socket.to_text().as_str());
    out.append(" not available after ");
    out.append(strings::decimal_of(elapsed).as_str());
    out.append("s");
    out
}

/// The wait never sleeps past its end, and never for nothing.
pub proof fn pauses_are_bounded(attempt: nat, elapsed: nat, max_wait: nat)
    requires
        elapsed < max_wait,
    ensures
        0 < pause(attempt, elapsed, max_wait) <= 10,
        elapsed + pause(attempt, elapsed, max_wait) <= max_wait,
{
    delay_bounds(attempt);
}

proof fn delay_bounds(attempt: nat)
    ensures
        1 <= delay(attempt) <= 10,
    decreases attempt,
{
    if attempt > 0 {
        delay_bounds((attempt - 1) as nat);
    }
}

/// The seconds between two looks: one, two, four, eight, and ten from then on.
pub proof fn delays_double_up_to_ten(attempt: nat)
    ensures
        attempt == 0 ==> delay(attempt) == 1,
        attempt == 1 ==> delay(attempt) == 2,
        attempt == 2 ==> delay(attempt) == 4,
        attempt == 3 ==> delay(attempt) == 8,
        attempt >= 4 ==> delay(attempt) == 10,
    decreases attempt,
{
    if attempt > 0 {
        delays_double_up_to_ten((attempt - 1) as nat);
    }
}

/// A pause is the delay where that much time is left, and else what is left.
pub proof fn pauses_end_with_the_wait(attempt: nat, elapsed: nat, max_wait: nat)
    requires
        elapsed < max_wait,
    ensures
        elapsed + delay(attempt) <= max_wait ==> pause(attempt, elapsed, max_wait) == delay(
            attempt,
        ),
        elapsed + delay(attempt) > max_wait ==> elapsed + pause(attempt, elapsed, max_wait)
            == max_wait,
{
}

} // verus!
