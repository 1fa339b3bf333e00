//! Platform service and installed-software bookkeeping: the mappings
//! from raw service rows and registry entries to the records the wire
//! carries. The native enumeration itself runs outside; these functions
//! hold the rules it feeds.
use vstd::prelude::*;

use crate::error::Error;
use crate::messages::{WinSoftwareList, WindowsService};
use crate::text::{all_digits, dec_val, is_digit, str_eq, string_of, strcat};

verus! {

broadcast use vstd::seq::group_seq_axioms;

/// The captured output of one finished process.
#[derive(Debug, Clone)]
pub struct Status {
    pub stdout: String,
    pub stderr: String,
    pub exitcode: i32,
}

/// The text for a numeric service state.
pub open spec fn spec_status_text(num: u32) -> Seq<char> {
    if num == 1 {
        "stopped"@
    } else if num == 2 {
        "start_pending"@
    } else if num == 3 {
        "stop_pending"@
    } else if num == 4 {
        "running"@
    } else if num == 5 {
        "continue_pending"@
    } else if num == 6 {
        "pause_pending"@
    } else if num == 7 {
        "paused"@
    } else {
        "unknown"@
    }
}

pub fn service_status_text(num: u32) -> (r: String)
    ensures
        r@ == spec_status_text(num),
{
    if num == 1 {
        string_of("stopped")
    } else if num == 2 {
        string_of("start_pending")
    } else if num == 3 {
        string_of("stop_pending")
    } else if num == 4 {
        string_of("running")
    } else if num == 5 {
        string_of("continue_pending")
    } else if num == 6 {
        string_of("pause_pending")
    } else if num == 7 {
        string_of("paused")
    } else {
        string_of("unknown")
    }
}

/// The text for a numeric service start type.
pub open spec fn spec_start_type_text(num: u32) -> Seq<char> {
    if num == 0 {
        "Boot"@
    } else if num == 1 {
        "System"@
    } else if num == 2 {
        "Automatic"@
    } else if num == 3 {
        "Manual"@
    } else if num == 4 {
        "Disabled"@
    } else if num == 5 {
        "Unknown"@
    } else {
        "unknown"@
    }
}

pub fn service_start_type(num: u32) -> (r: String)
    ensures
        r@ == spec_start_type_text(num),
{
    if num == 0 {
        string_of("Boot")
    } else if num == 1 {
        string_of("System")
    } else if num == 2 {
        string_of("Automatic")
    } else if num == 3 {
        string_of("Manual")
    } else if num == 4 {
        string_of("Disabled")
    } else if num == 5 {
        string_of("Unknown")
    } else {
        string_of("unknown")
    }
}

/// One raw service row, as the native enumeration reports it.
#[derive(Debug, Clone)]
pub struct SvcRow {
    pub name: String,
    pub display_name: String,
    pub bin_path: String,
    pub description: String,
    pub username: String,
    pub state: u32,
    pub pid: u32,
    pub start_type: u32,
    pub delayed_auto_start: bool,
}

/// How one raw row determines its wire record.
pub open spec fn row_matches(row: SvcRow, w: WindowsService) -> bool {
    &&& w.name@ == row.name@
    &&& w.status@ == spec_status_text(row.state)
    &&& w.display_name@ == row.display_name@
    &&& w.bin_path@ == row.bin_path@
    &&& w.description@ == row.description@
    &&& w.username@ == row.username@
    &&& w.pid == row.pid
    &&& w.start_type@ == spec_start_type_text(row.start_type)
    &&& w.delayed_auto_start == row.delayed_auto_start
}

/// The wire record of one raw row.
pub fn get_config(row: &SvcRow) -> (r: WindowsService)
    ensures
        row_matches(*row, r),
{
    WindowsService {
        name: row.name.clone(),
        status: service_status_text(row.state),
        display_name: row.display_name.clone(),
        bin_path: row.bin_path.clone(),
        description: row.description.clone(),
        username: row.username.clone(),
        pid: row.pid,
        start_type: service_start_type(row.start_type),
        delayed_auto_start: row.delayed_auto_start,
    }
}

/// Every enumerated service, mapped to its wire record in order.
pub fn get_services(rows: &Vec<SvcRow>) -> (r: Result<Vec<WindowsService>, Error>)
    ensures
        r matches Ok(v) && v@.len() == rows@.len() && (forall|i: int|
            0 <= i < rows@.len() ==> row_matches(rows@[i], #[trigger] v@[i])),
{
    let mut out: Vec<WindowsService> = Vec::new();
    let mut i: usize = 0;
    while i < rows.len()
        invariant
            0 <= i <= rows@.len(),
            out@.len() == i,
            forall|k: int| 0 <= k < i ==> row_matches(rows@[k], #[trigger] out@[k]),
        decreases rows@.len() - i,
    {
        out.push(get_config(&rows[i]));
        i = i + 1;
    }
    Ok(out)
}

/// The service list under its older name.
pub fn get_service(rows: &Vec<SvcRow>) -> (r: Result<Vec<WindowsService>, Error>)
    ensures
        r matches Ok(v) && v@.len() == rows@.len() && (forall|i: int|
            0 <= i < rows@.len() ==> row_matches(rows@[i], #[trigger] v@[i])),
{
    get_services(rows)
}

/// The wire record of the first service whose name matches, or a
/// platform error naming the miss.
pub fn get_service_detail(rows: &Vec<SvcRow>, name: &str) -> (r: Result<WindowsService, Error>)
    ensures
        (exists|i: int| 0 <= i < rows@.len() && (#[trigger] rows@[i]).name@ == name@) <==> r
            is Ok,
        r matches Ok(w) ==> exists|i: int|
            0 <= i < rows@.len() && (#[trigger] rows@[i]).name@ == name@ && row_matches(
                rows@[i],
                w,
            ),
        r matches Err(e) ==> (e matches Error::WindowsError(s) && s@ == "service not found: "@
            + name@),
{
    let mut i: usize = 0;
    while i < rows.len()
        invariant
            0 <= i <= rows@.len(),
            forall|k: int| 0 <= k < i ==> (#[trigger] rows@[k]).name@ != name@,
        decreases rows@.len() - i,
    {
        if str_eq(rows[i].name.as_str(), name) {
            return Ok(get_config(&rows[i]));
        }
        i = i + 1;
    }
    Err(Error::WindowsError(name_not_found_text(name)))
}

/// The message used when a named service is absent.
pub fn name_not_found_text(name: &str) -> (r: String)
    ensures
        r@ == "service not found: "@ + name@,
{
    strcat("service not found: ", name)
}

/// What an edit request changes: the numeric start type, and whether
/// delayed automatic start is rewritten.
#[derive(Debug, Clone, PartialEq, Eq, Structural)]
pub struct SvcEdit {
    pub start_type: u32,
    pub set_delayed_auto_start: Option<bool>,
}

/// The configuration change a startup-type name denotes: `auto` and
/// `autodelay` select automatic start (the latter delayed), `manual`
/// and `disabled` their types; anything else is refused.
pub fn edit_service(startup_type: &str) -> (r: Result<SvcEdit, Error>)
    ensures
        startup_type@ == "auto"@ ==> r == Ok::<SvcEdit, Error>(
            SvcEdit { start_type: 2u32, set_delayed_auto_start: Some(false) },
        ),
        startup_type@ == "autodelay"@ ==> r == Ok::<SvcEdit, Error>(
            SvcEdit { start_type: 2u32, set_delayed_auto_start: Some(true) },
        ),
        startup_type@ == "manual"@ ==> r == Ok::<SvcEdit, Error>(
            SvcEdit { start_type: 3u32, set_delayed_auto_start: None },
        ),
        startup_type@ == "disabled"@ ==> r == Ok::<SvcEdit, Error>(
            SvcEdit { start_type: 4u32, set_delayed_auto_start: None },
        ),
        startup_type@ != "auto"@ && startup_type@ != "autodelay"@ && startup_type@ != "manual"@
            && startup_type@ != "disabled"@ ==> r is Err,
{
    proof {
        reveal_strlit("auto");
        reveal_strlit("autodelay");
        reveal_strlit("manual");
        reveal_strlit("disabled");
        assert("auto"@.len() == 4);
        assert("autodelay"@.len() == 9);
        assert("manual"@.len() == 6);
        assert("disabled"@.len() == 8);
    }
    if str_eq(startup_type, "auto") {
        Ok(SvcEdit { start_type: 2, set_delayed_auto_start: Some(false) })
    } else if str_eq(startup_type, "autodelay") {
        Ok(SvcEdit { start_type: 2, set_delayed_auto_start: Some(true) })
    } else if str_eq(startup_type, "manual") {
        Ok(SvcEdit { start_type: 3, set_delayed_auto_start: None })
    } else if str_eq(startup_type, "disabled") {
        Ok(SvcEdit { start_type: 4, set_delayed_auto_start: None })
    } else {
        Err(Error::WindowsError(strcat("Unknown startup type provided: ", startup_type)))
    }
}

/// The plan a control action denotes: start, or stop with its polling
/// bounds (half a second between queries, thirty seconds in all).
#[derive(Debug, Clone, PartialEq, Eq, Structural)]
pub enum SvcControl {
    Start,
    Stop { poll_millis: u64, timeout_secs: u64 },
}

pub fn control_service(action: &str) -> (r: Result<SvcControl, Error>)
    ensures
        action@ == "start"@ ==> r == Ok::<SvcControl, Error>(SvcControl::Start),
        action@ == "stop"@ ==> r == Ok::<SvcControl, Error>(
            SvcControl::Stop { poll_millis: 500u64, timeout_secs: 30u64 },
        ),
        action@ != "start"@ && action@ != "stop"@ ==> r is Err,
{
    proof {
        reveal_strlit("start");
        reveal_strlit("stop");
        assert("start"@.len() == 5);
        assert("stop"@.len() == 4);
    }
    if str_eq(action, "start") {
        Ok(SvcControl::Start)
    } else if str_eq(action, "stop") {
        Ok(SvcControl::Stop { poll_millis: 500, timeout_secs: 30 })
    } else {
        Err(Error::WindowsError(strcat("Unknown service action provided: ", action)))
    }
}


// ------------------------------------------------------------------
// Installed software.
// ------------------------------------------------------------------
/// One uninstall-registry entry, values as the registry holds them.
#[derive(Debug, Clone)]
pub struct RegSwEntry {
    /// Entries without a display name are not software rows.
    pub display_name: Option<String>,
    pub version: Option<String>,
    pub publisher: Option<String>,
    /// The install date as stored: eight digits, year month day.
    pub install_date: Option<String>,
    /// The estimated size in binary kilobytes.
    pub size_kib: Option<u64>,
    pub source: Option<String>,
    pub location: Option<String>,
    pub uninstall: Option<String>,
}

/// A date of eight digits denoting a real calendar day.
pub open spec fn valid_yyyymmdd(s: Seq<char>) -> bool {
    let y = dec_val(s.subrange(0, 4));
    let m = dec_val(s.subrange(4, 6));
    let d = dec_val(s.subrange(6, 8));
    s.len() == 8 && all_digits(s) && 1 <= m <= 12 && 1 <= d && d <= spec_days_in_month(y, m)
}

pub open spec fn spec_is_leap(y: nat) -> bool {
    (y % 4 == 0 && y % 100 != 0) || y % 400 == 0
}

pub open spec fn spec_days_in_month(y: nat, m: nat) -> nat {
    if m == 2 {
        if spec_is_leap(y) {
            29
        } else {
            28
        }
    } else if m == 4 || m == 6 || m == 9 || m == 11 {
        30
    } else {
        31
    }
}

/// The wire form of a stored install date: the digits regrouped with
/// dashes when the date is real, empty otherwise.
pub open spec fn spec_install_date(s: Seq<char>) -> Seq<char> {
    if valid_yyyymmdd(s) {
        s.subrange(0, 4) + seq!['-'] + s.subrange(4, 6) + seq!['-'] + s.subrange(6, 8)
    } else {
        Seq::empty()
    }
}

/// Regroup a stored install date for the wire.
pub fn format_install_date(s: &str) -> (r: String)
    ensures
        r@ == spec_install_date(s@),
{
    proof {
        reveal_strlit("");
        assert(""@ =~= Seq::<char>::empty());
    }
    let cs = crate::text::str_chars(s);
    if cs.len() != 8 {
        proof {
            assert(!valid_yyyymmdd(s@));
        }
        return string_of("");
    }
    let mut i: usize = 0;
    while i < 8
        invariant
            cs@ == s@,
            cs@.len() == 8,
            0 <= i <= 8,
            forall|k: int| 0 <= k < i ==> is_digit(#[trigger] cs@[k]),
        decreases 8 - i,
    {
        let c = cs[i];
        if !('0' <= c && c <= '9') {
            proof {
                assert(!is_digit(s@[i as int]));
                assert(!all_digits(s@));
                assert(!valid_yyyymmdd(s@));
                assert(spec_install_date(s@) =~= Seq::<char>::empty());
            }
            let r0 = string_of("");
            proof {
                reveal_strlit("");
                assert(r0@ =~= spec_install_date(s@));
            }
            return r0;
        }
        i = i + 1;
    }
    proof {
        assert(all_digits(s@));
    }
    let y: u64 = ((digit_of(cs[0]) * 10 + digit_of(cs[1])) * 10 + digit_of(cs[2])) * 10
        + digit_of(cs[3]);
    let m: u64 = digit_of(cs[4]) * 10 + digit_of(cs[5]);
    let d: u64 = digit_of(cs[6]) * 10 + digit_of(cs[7]);
    proof {
        assert(s@.subrange(0, 4) =~= seq![s@[0], s@[1], s@[2], s@[3]]);
        assert(s@.subrange(4, 6) =~= seq![s@[4], s@[5]]);
        assert(s@.subrange(6, 8) =~= seq![s@[6], s@[7]]);
        crate::text::lemma_dec_val4(s@[0], s@[1], s@[2], s@[3]);
        crate::text::lemma_dec_val2(s@[4], s@[5]);
        crate::text::lemma_dec_val2(s@[6], s@[7]);
        assert(y == dec_val(s@.subrange(0, 4)));
        assert(m == dec_val(s@.subrange(4, 6)));
        assert(d == dec_val(s@.subrange(6, 8)));
    }
    let days = days_in_month(y, m);
    if !(1 <= m && m <= 12 && 1 <= d && d <= days) {
        proof {
            assert(!valid_yyyymmdd(s@));
        }
        return string_of("");
    }
    let mut out: Vec<char> = Vec::new();
    out.push(cs[0]);
    out.push(cs[1]);
    out.push(cs[2]);
    out.push(cs[3]);
    out.push('-');
    out.push(cs[4]);
    out.push(cs[5]);
    out.push('-');
    out.push(cs[6]);
    out.push(cs[7]);
    proof {
        assert(valid_yyyymmdd(s@));
        assert(out@ =~= spec_install_date(s@));
    }
    crate::text::string_from_chars(&out)
}

fn digit_of(c: char) -> (r: u64)
    requires
        is_digit(c),
    ensures
        r == crate::text::digit_val(c),
        r < 10,
{
    (c as u32 as u64) - 48
}

fn days_in_month(y: u64, m: u64) -> (r: u64)
    ensures
        r == spec_days_in_month(y as nat, m as nat),
{
    if m == 2 {
        if (y % 4 == 0 && y % 100 != 0) || y % 400 == 0 {
            29
        } else {
            28
        }
    } else if m == 4 || m == 6 || m == 9 || m == 11 {
        30
    } else {
        31
    }
}

/// How one registry entry with a display name determines its record.
pub open spec fn sw_matches(e: RegSwEntry, w: WinSoftwareList) -> bool {
    &&& e.display_name matches Some(n) && w.name@ == n@
    &&& w.version@ == opt_text(e.version)
    &&& w.publisher@ == opt_text(e.publisher)
    &&& w.install_date@ == (match e.install_date {
        Some(d) => spec_install_date(d@),
        None => Seq::empty(),
    })
    &&& w.size@ == (match e.size_kib {
        Some(k) => crate::agent::human_size_windows(if k * 1024 <= u64::MAX {
            (k * 1024) as u64
        } else {
            u64::MAX
        }),
        None => Seq::empty(),
    })
    &&& w.source@ == opt_text(e.source)
    &&& w.location@ == opt_text(e.location)
    &&& w.uninstall@ == opt_text(e.uninstall)
}

pub open spec fn opt_text(o: Option<String>) -> Seq<char> {
    match o {
        Some(s) => s@,
        None => Seq::empty(),
    }
}

/// How an entry list determines the software list: entries without a
/// display name are skipped, the rest map in order.
pub open spec fn sw_filter_rel(entries: Seq<RegSwEntry>, out: Seq<WinSoftwareList>) -> bool
    decreases entries.len(),
{
    if entries.len() == 0 {
        out.len() == 0
    } else if entries.last().display_name is None {
        sw_filter_rel(entries.drop_last(), out)
    } else {
        out.len() >= 1 && sw_matches(entries.last(), out.last()) && sw_filter_rel(
            entries.drop_last(),
            out.drop_last(),
        )
    }
}

/// The software records of the merged uninstall-registry entries.
pub fn installed_software_list(entries: &Vec<RegSwEntry>) -> (r: Result<
    Vec<WinSoftwareList>,
    Error,
>)
    ensures
        r matches Ok(v) && sw_filter_rel(entries@, v@),
{
    let mut out: Vec<WinSoftwareList> = Vec::new();
    let mut i: usize = 0;
    while i < entries.len()
        invariant
            0 <= i <= entries@.len(),
            sw_filter_rel(entries@.take(i as int), out@),
        decreases entries@.len() - i,
    {
        let e = &entries[i];
        let ghost out0 = out@;
        match &e.display_name {
            Some(n) => {
                let w = WinSoftwareList {
                    name: n.clone(),
                    version: opt_clone(&e.version),
                    publisher: opt_clone(&e.publisher),
                    install_date: match &e.install_date {
                        Some(d) => format_install_date(d.as_str()),
                        None => string_of(""),
                    },
                    size: match &e.size_kib {
                        Some(k) => {
                            let bytes = match k.checked_mul(1024) {
                                Some(b) => b,
                                None => u64::MAX,
                            };
                            crate::agent::format_size_windows(bytes)
                        },
                        None => string_of(""),
                    },
                    source: opt_clone(&e.source),
                    location: opt_clone(&e.location),
                    uninstall: opt_clone(&e.uninstall),
                };
                proof {
                    reveal_strlit("");
                    assert(""@ =~= Seq::<char>::empty());
                    assert(sw_matches(entries@[i as int], w));
                }
                out.push(w);
            },
            None => {},
        }
        proof {
            assert(entries@.take(i + 1).drop_last() =~= entries@.take(i as int));
            assert(entries@.take(i + 1).last() == entries@[i as int]);
            if entries@[i as int].display_name is None {
                assert(out@ == out0);
            } else {
                assert(out@.drop_last() =~= out0);
            }
            assert(sw_filter_rel(entries@.take(i + 1), out@));
        }
        i = i + 1;
    }
    proof {
        assert(entries@.take(entries@.len() as int) =~= entries@);
    }
    Ok(out)
}

fn opt_clone(o: &Option<String>) -> (r: String)
    ensures
        r@ == opt_text(*o),
{
    proof {
        reveal_strlit("");
        assert(""@ =~= Seq::<char>::empty());
    }
    match o {
        Some(s) => s.clone(),
        None => string_of(""),
    }
}

} // verus!
