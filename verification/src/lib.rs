//! Correlates network-scan results with a known-device registry: an ordered
//! IP-to-MAC mapping extracted from a scan report is joined against a registry
//! of named devices, and the result is rendered as a bordered text table.

pub mod entries;
pub mod json;
pub mod omap;
pub mod registry;
pub mod report;
pub mod scan;
pub mod text;

use vstd::prelude::*;

use crate::entries::Entry;
use crate::registry::{build_mac_index, Device};
use crate::report::{build_rows, render_report, report_text};
use crate::scan::{scan_entries, scan_report, xml_events_of, ScanError};

verus! {

/// Runs the whole pipeline: reads the scan report's markup, builds the
/// registry's MAC-to-name index, joins the two on uppercased MAC, and renders
/// the bordered table. An empty report gives the table with a header and no
/// rows; malformed markup is an error and renders nothing.
pub fn correlate_report(input: &str, devices: &Vec<Device>) -> (r: Result<String, ScanError>)
    ensures
        match r {
            Ok(out) => {
                ||| (input@.len() == 0 && out@ == report_text(
                    Seq::<Entry>::empty(),
                    devices@.map_values(|d: Device| d@),
                ))
                ||| {
                    &&& input@.len() > 0
                    &&& xml_events_of(input@) matches Some(evs)
                    &&& out@ == report_text(
                        scan_entries(evs),
                        devices@.map_values(|d: Device| d@),
                    )
                }
            },
            Err(_) => input@.len() > 0 && xml_events_of(input@) is None,
        },
{
    let scan = match scan_report(input) {
        Ok(m) => m,
        Err(e) => {
            return Err(e);
        },
    };
    let idx = build_mac_index(devices);
    let rows = build_rows(&scan, &idx);
    let out = render_report(&rows);
    Ok(out)
}

} // verus!
