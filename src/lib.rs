//! A change-detecting register poller: coalesces configured register
//! addresses into contiguous read ranges and diffs each read against the
//! last values seen.

mod address;
mod config;
mod laws;
mod monitor;
mod ranges;
mod table;

pub use address::{
    address_value, digits_value, is_decimal_digit, parse_address, parses_as_address,
    unsigned_digits, ConfigError,
};
pub use ranges::{
    apart, coalesce_addresses, coalesce_spec, covered, insert_range_spec,
    lemma_coalesce_partition, well_separated, AddressRange,
};
pub use config::{
    all_keys_parse, build_ranges, entry_addresses, first_bad_key, key_address, key_parses,
    parse_registers, reports_first_bad_key, RegisterDescriptor,
};
pub use table::{stored_value, LastValueTable};
pub use monitor::{
    apply_read, changes_of, delay_spec, find_label, inter_tick_delay_ms, label_of, table_after,
    after_read, tick_start, Action, ChangeEvent, MonitorEvent, MonitorState, PollingMonitor,
    RangeFailure, RegisterValue, StepReport,
};
pub use laws::{
    distinct_addresses, lemma_diff_idempotent, lemma_entry_untouched, lemma_failed_range_untouched,
    lemma_first_observation, lemma_no_notification_unread, not_read, notifications_for, tick_table,
};
