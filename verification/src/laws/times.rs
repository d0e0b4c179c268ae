//! How long things take, and how much is taken at once.
use crate::cava_bridge::{IDLE_SLEEP_NS, LOOPBACK_WAIT_SECS, READ_TIMEOUT_NS, STATS_INTERVAL_NS};
use crate::cava_manager::{ASCII_LINE_LIMIT, KILL_REST_MS, LOOPBACK_REST_MS};
use crate::device_identifier::SHOWN_BYTES;
use crate::hybrid_bridge::{
    AFTER_FAILURE_NS, BEFORE_RETRY_NS, COMMAND_WAIT_MS, HEALTH_CHECK_NS, MPD_RECONNECT_NS,
    NO_COMMAND_NS, NO_MESSAGE_NS,
};
use crate::mpd_bridge::TURN_REST_MS;
use crate::serial_comm::{LINE_LIMIT, SYNC_BYTE};
use crate::serial_queue::WORKER_WAIT_MS;
use crate::sysinfo_bridge::REST_NS;
use crate::watcher::{
    BRIDGE_STOP_WAIT_MS, CAVA_KILL_REST_MS, COLLECTED_DEVICES, COLLECT_WINDOW_NS, DEVICE_SETTLE_MS,
    IDENTIFY_REST_MS, IDENTIFY_RETRIES, IDENTIFY_TIMEOUT_NS, MPD_CHECK_INTERVAL_NS, MPD_CHECK_RETRIES,
    NEW_DEVICE_REST_MS, STOP_CHECKS, STOP_CHECK_MS,
};
use vstd::prelude::*;

verus! {

/// Reports come every minute. The worker of the player tries again after five seconds, rests a second
/// after a try that failed and half a second before one that is not allowed yet, and looks for commands
/// for a twentieth of a second.
pub proof fn law_times_of_bridges()
    ensures
        STATS_INTERVAL_NS == 60 * 1_000_000_000,
        MPD_RECONNECT_NS == 5 * 1_000_000_000,
        AFTER_FAILURE_NS == 1_000_000_000,
        2 * BEFORE_RETRY_NS == AFTER_FAILURE_NS,
        2 * HEALTH_CHECK_NS == 1_000_000_000,
        10 * NO_MESSAGE_NS == 1_000_000_000,
        20 * COMMAND_WAIT_MS == 1000,
        100 * NO_COMMAND_NS == 1_000_000_000,
        10 * REST_NS == 1_000_000_000,
        100 * TURN_REST_MS == 1000,
        200 * IDLE_SLEEP_NS == 1_000_000_000,
        READ_TIMEOUT_NS == IDLE_SLEEP_NS,
{
}

/// The loopback device is looked for once a second, for two minutes; an earlier analyser has half a
/// second to stop. A line of numbers is read up to 1023 bytes, one of a device up to 4096.
pub proof fn law_times_of_the_line()
    ensures
        LOOPBACK_WAIT_SECS * 1000 == 120 * LOOPBACK_REST_MS,
        LOOPBACK_REST_MS == 1000,
        2 * KILL_REST_MS == 1000,
        ASCII_LINE_LIMIT + 1 == 1024,
        LINE_LIMIT == 4 * 1024,
        SYNC_BYTE == 0xCA,
        100 * WORKER_WAIT_MS == 1000,
        SHOWN_BYTES == 200,
{
}

/// The player is awaited for a minute, by thirty looks; a device is asked three times, and has two
/// seconds each time; new devices are awaited for a second, eight of them at most; and a bridge that was
/// killed has three seconds to end.
pub proof fn law_times_of_the_watcher()
    ensures
        MPD_CHECK_RETRIES == 30,
        MPD_CHECK_RETRIES * MPD_CHECK_INTERVAL_NS == 60 * 1_000_000_000,
        IDENTIFY_RETRIES == 3,
        IDENTIFY_TIMEOUT_NS == 2 * 1_000_000_000,
        IDENTIFY_REST_MS == 1000,
        NEW_DEVICE_REST_MS == 300,
        COLLECT_WINDOW_NS == 1_000_000_000,
        COLLECTED_DEVICES == 8,
        2 * DEVICE_SETTLE_MS == 1000,
        STOP_CHECKS == 30,
        STOP_CHECKS * STOP_CHECK_MS == 3 * 1000,
        2 * BRIDGE_STOP_WAIT_MS == 1000,
        5 * CAVA_KILL_REST_MS == 1000,
{
}

} // verus!
