use uuid7_rs::windows::time::{now, now_ms, platform_seeded, system_ms, TICKS_PER_MILLISECOND, UNIX_EPOCH_TICKS};
use uuid7_rs::windows::win_api::FILETIME;

fn filetime(ticks: u64) -> FILETIME {
    FILETIME { dw_low_date_time: ticks as u32, dw_high_date_time: (ticks >> 32) as u32 }
}

#[test]
fn system_ms_from_filetime() {
    assert_eq!(system_ms(&filetime(UNIX_EPOCH_TICKS)), 0);
    let t = UNIX_EPOCH_TICKS + 1_700_000_000_123 * TICKS_PER_MILLISECOND + 9_999;
    assert_eq!(system_ms(&filetime(t)), 1_700_000_000_123);
}

#[test]
fn seeded_clock_reads_system_time() {
    let ft = filetime(UNIX_EPOCH_TICKS + 1_700_000_000_000 * TICKS_PER_MILLISECOND);
    let interrupt = 42_000 * TICKS_PER_MILLISECOND;
    assert_eq!(now(interrupt), 42_000);
    let offset = platform_seeded(&ft, interrupt);
    assert_eq!(offset, 1_700_000_000_000 - 42_000);
    assert_eq!(now_ms(interrupt, offset), 1_700_000_000_000);
    assert_eq!(now_ms(interrupt + 5 * TICKS_PER_MILLISECOND, offset), 1_700_000_000_005);
}
