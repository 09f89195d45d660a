//! Report renderer: joins the scanned IP-to-MAC entries with the registry's
//! MAC-to-name index and renders the rows as a bordered text table with the
//! columns IP, MAC and Device.

use vstd::prelude::*;

use crate::entries::{lookup, Entry};
use crate::omap::OrderedIndex;
use crate::registry::{mac_index, DeviceView};
use crate::text::{to_upper, upper_seq};

verus! {

/// One row of the report: the IP, the uppercased MAC, and the device name or
/// `Unknown`.
pub struct ReportRow {
    pub ip: String,
    pub mac: String,
    pub device: String,
}

/// The abstract value of a report row.
pub struct RowView {
    pub ip: Seq<char>,
    pub mac: Seq<char>,
    pub device: Seq<char>,
}

impl View for ReportRow {
    type V = RowView;

    open spec fn view(&self) -> RowView {
        RowView { ip: self.ip@, mac: self.mac@, device: self.device@ }
    }
}

/// The name shown for a MAC no device claims.
pub open spec fn unknown_name() -> Seq<char> {
    "Unknown"@
}

/// The row for one scanned IP/MAC entry: the MAC is uppercased, then looked
/// up in the index; a miss shows `Unknown`.
pub open spec fn row_for(e: Entry, idx: Seq<Entry>) -> RowView {
    RowView {
        ip: e.0,
        mac: upper_seq(e.1),
        device: match lookup(idx, upper_seq(e.1)) {
            Some(n) => n,
            None => unknown_name(),
        },
    }
}

/// The report's rows: one per scanned entry, in the scan's order.
pub open spec fn rows_for(scan: Seq<Entry>, idx: Seq<Entry>) -> Seq<RowView> {
    scan.map_values(|e: Entry| row_for(e, idx))
}

/// MAC comparison is case-insensitive: two scanned entries whose MACs are
/// equal up to ASCII case resolve to the same device name, whatever the
/// registry holds.
pub proof fn lemma_row_case_insensitive(e1: Entry, e2: Entry, idx: Seq<Entry>)
    requires
        upper_seq(e1.1) == upper_seq(e2.1),
    ensures
        row_for(e1, idx).device == row_for(e2, idx).device,
{
}

/// Builds the report rows from the scanned entries and the registry index,
/// following `rows_for`.
pub fn build_rows(scan: &OrderedIndex, idx: &OrderedIndex) -> (rows: Vec<ReportRow>)
    ensures
        rows@.map_values(|r: ReportRow| r@) == rows_for(scan@, idx@),
{
    let mut rows: Vec<ReportRow> = Vec::new();
    let n: usize = scan.len();
    let mut i: usize = 0;
    while i < n
        invariant
            n == scan@.len(),
            i <= n,
            rows@.map_values(|r: ReportRow| r@) == rows_for(scan@.take(i as int), idx@),
        decreases n - i,
    {
        let (ip, mac) = scan.pair_at(i);
        let mac_upper = to_upper(mac.as_str());
        let device = match idx.get(&mac_upper) {
            Some(name) => name,
            None => String::from_str("Unknown"),
        };
        let row = ReportRow { ip, mac: mac_upper, device };
        proof {
            assert(row@ == row_for(scan@[i as int], idx@));
        }
        let ghost rows_prev = rows@;
        rows.push(row);
        proof {
            let lhs = rows@.map_values(|r: ReportRow| r@);
            let rhs = rows_for(scan@.take(i as int + 1), idx@);
            assert(rows_prev.len() == rows_for(scan@.take(i as int), idx@).len());
            assert(rows@ == rows_prev.push(row));
            assert(scan@.take(i as int + 1).len() == i + 1);
            assert(lhs.len() == i + 1);
            assert(rhs.len() == i + 1);
            assert forall|j: int| 0 <= j < lhs.len() implies lhs[j] == rhs[j] by {
                assert(lhs[j] == rows@[j]@);
                assert(rhs[j] == row_for(scan@.take(i as int + 1)[j], idx@));
                if j < i {
                    assert(rows@[j] == rows_prev[j]);
                    assert(rows_prev.map_values(|r: ReportRow| r@)[j] == rows_prev[j]@);
                    assert(rows_for(scan@.take(i as int), idx@)[j] == row_for(
                        scan@.take(i as int)[j],
                        idx@,
                    ));
                }
            }
            assert(lhs =~= rhs);
        }
        i = i + 1;
    }
    proof {
        assert(scan@.take(n as int) =~= scan@);
    }
    rows
}

/// The report's column headers.
pub open spec fn report_header() -> Seq<Seq<char>> {
    seq!["IP"@, "MAC"@, "Device"@]
}

/// The cells of one row, in column order.
pub open spec fn row_cells(r: RowView) -> Seq<Seq<char>> {
    seq![r.ip, r.mac, r.device]
}

/// The cells of all the rows.
pub open spec fn report_cells(rows: Seq<RowView>) -> Seq<Seq<Seq<char>>> {
    rows.map_values(|r: RowView| row_cells(r))
}

/// The text of the bordered table with the given header and cell rows. The
/// text depends on the header and the cells alone.
pub uninterp spec fn table_text_of(header: Seq<Seq<char>>, cells: Seq<Seq<Seq<char>>>) -> Seq<
    char,
>;

/// Relies on `comfy_table::Table` (`new`, `set_header`, `add_rows` and its
/// `Display` impl): renders a bordered table of the given header and rows;
/// with the default style the text depends on the header and rows alone.
#[verifier::external_body]
fn table_text(header: &Vec<String>, rows: &Vec<Vec<String>>) -> (r: String)
    ensures
        r@ == table_text_of(header.deep_view(), rows.deep_view()),
{
    let mut t = comfy_table::Table::new();
    t.set_header(header.clone());
    t.add_rows(rows.clone());
    t.to_string()
}

/// Renders the report rows as the bordered table, with the header IP, MAC,
/// Device.
pub fn render_report(rows: &Vec<ReportRow>) -> (out: String)
    ensures
        out@ == table_text_of(report_header(), report_cells(rows@.map_values(|r: ReportRow| r@))),
{
    let mut header: Vec<String> = Vec::new();
    header.push(String::from_str("IP"));
    header.push(String::from_str("MAC"));
    header.push(String::from_str("Device"));
    proof {
        assert(header.deep_view() =~= report_header());
    }
    let mut cells: Vec<Vec<String>> = Vec::new();
    let n: usize = rows.len();
    let mut i: usize = 0;
    while i < n
        invariant
            n == rows@.len(),
            i <= n,
            cells.deep_view() == report_cells(rows@.take(i as int).map_values(|r: ReportRow| r@)),
        decreases n - i,
    {
        let mut line: Vec<String> = Vec::new();
        line.push(rows[i].ip.clone());
        line.push(rows[i].mac.clone());
        line.push(rows[i].device.clone());
        proof {
            assert(line.deep_view() =~= row_cells(rows@[i as int]@));
        }
        let ghost cells_prev = cells.deep_view();
        let ghost line_view = line.deep_view();
        cells.push(line);
        proof {
            let lhs = cells.deep_view();
            let rhs = report_cells(rows@.take(i as int + 1).map_values(|r: ReportRow| r@));
            assert(cells_prev.len() == report_cells(
                rows@.take(i as int).map_values(|r: ReportRow| r@),
            ).len());
            assert(rows@.take(i as int + 1).len() == i + 1);
            assert(rows@.take(i as int + 1).map_values(|r: ReportRow| r@).len() == i + 1);
            assert(cells@.len() == i + 1);
            assert(lhs.len() == i + 1);
            assert(rhs.len() == i + 1);
            assert forall|j: int| 0 <= j < lhs.len() implies lhs[j] == rhs[j] by {
                assert(lhs[j] == cells@[j].deep_view());
                let taken = rows@.take(i as int + 1).map_values(|r: ReportRow| r@);
                assert(rhs[j] == row_cells(taken[j]));
                assert(taken[j] == rows@.take(i as int + 1)[j]@);
                if j < i {
                    assert(cells@[j] == cells@.take(i as int)[j]);
                    assert(cells_prev[j] == cells@[j].deep_view());
                    let taken_prev = rows@.take(i as int).map_values(|r: ReportRow| r@);
                    assert(report_cells(taken_prev)[j] == row_cells(taken_prev[j]));
                    assert(taken_prev[j] == rows@.take(i as int)[j]@);
                } else {
                    assert(cells@[j] == line);
                    assert(lhs[j] == line_view);
                }
            }
            assert(lhs =~= rhs);
        }
        i = i + 1;
    }
    proof {
        assert(rows@.take(n as int) =~= rows@);
    }
    table_text(&header, &cells)
}

/// The whole report's text for given scanned entries and registry devices.
pub open spec fn report_text(scan: Seq<Entry>, devs: Seq<DeviceView>) -> Seq<char> {
    table_text_of(report_header(), report_cells(rows_for(scan, mac_index(devs))))
}

} // verus!
