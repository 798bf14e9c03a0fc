//! Printer configurations, the status shown for each printer, and the rules
//! that pick which printers the capsule shows.
use vstd::prelude::*;
use crate::text::owned;

verus! {

/// What a printer is doing, as far as the capsule shows it.
#[derive(PartialEq, Eq, Structural, Clone, Copy, Debug)]
pub enum PrintState {
    Disconnected,
    NoPrinter,
    Printing,
    Paused,
    Completed,
    Failed,
    Idle,
    Unknown,
}

/// The text the front end receives for each state.
pub open spec fn state_label(s: PrintState) -> Seq<char> {
    match s {
        PrintState::Disconnected => "disconnected"@,
        PrintState::NoPrinter => "no_printer"@,
        PrintState::Printing => "printing"@,
        PrintState::Paused => "paused"@,
        PrintState::Completed => "completed"@,
        PrintState::Failed => "failed"@,
        PrintState::Idle => "idle"@,
        PrintState::Unknown => "unknown"@,
    }
}

impl PrintState {
    /// The text the front end receives for this state.
    pub fn label(&self) -> (r: String)
        ensures
            r@ == state_label(*self),
    {
        match self {
            PrintState::Disconnected => owned("disconnected"),
            PrintState::NoPrinter => owned("no_printer"),
            PrintState::Printing => owned("printing"),
            PrintState::Paused => owned("paused"),
            PrintState::Completed => owned("completed"),
            PrintState::Failed => owned("failed"),
            PrintState::Idle => owned("idle"),
            PrintState::Unknown => owned("unknown"),
        }
    }
}

/// How to reach one printer.
pub struct PrinterConfig {
    pub name: String,
    pub ip_address: String,
    pub access_code: String,
    pub serial: String,
}

pub struct PrinterConfigView {
    pub name: Seq<char>,
    pub ip_address: Seq<char>,
    pub access_code: Seq<char>,
    pub serial: Seq<char>,
}

impl View for PrinterConfig {
    type V = PrinterConfigView;

    open spec fn view(&self) -> PrinterConfigView {
        PrinterConfigView {
            name: self.name@,
            ip_address: self.ip_address@,
            access_code: self.access_code@,
            serial: self.serial@,
        }
    }
}

impl Clone for PrinterConfig {
    fn clone(&self) -> (r: Self)
        ensures
            r@ == self@,
    {
        PrinterConfig {
            name: self.name.clone(),
            ip_address: self.ip_address.clone(),
            access_code: self.access_code.clone(),
            serial: self.serial.clone(),
        }
    }
}

/// What the capsule shows of one printer. The two temperatures are kept as
/// the bit patterns of the `f64` values that the printer reported
/// (`f64::to_bits`); nothing here computes with them.
pub struct PrinterStatus {
    pub name: String,
    pub status: PrintState,
    pub progress: i32,
    pub remaining_time: i32,
    pub nozzle_temp_bits: u64,
    pub bed_temp_bits: u64,
    pub layer_num: i32,
    pub total_layers: i32,
}

pub struct PrinterStatusView {
    pub name: Seq<char>,
    pub status: PrintState,
    pub progress: i32,
    pub remaining_time: i32,
    pub nozzle_temp_bits: u64,
    pub bed_temp_bits: u64,
    pub layer_num: i32,
    pub total_layers: i32,
}

impl View for PrinterStatus {
    type V = PrinterStatusView;

    open spec fn view(&self) -> PrinterStatusView {
        PrinterStatusView {
            name: self.name@,
            status: self.status,
            progress: self.progress,
            remaining_time: self.remaining_time,
            nozzle_temp_bits: self.nozzle_temp_bits,
            bed_temp_bits: self.bed_temp_bits,
            layer_num: self.layer_num,
            total_layers: self.total_layers,
        }
    }
}

impl Clone for PrinterStatus {
    fn clone(&self) -> (r: Self)
        ensures
            r@ == self@,
    {
        PrinterStatus {
            name: self.name.clone(),
            status: self.status,
            progress: self.progress,
            remaining_time: self.remaining_time,
            nozzle_temp_bits: self.nozzle_temp_bits,
            bed_temp_bits: self.bed_temp_bits,
            layer_num: self.layer_num,
            total_layers: self.total_layers,
        }
    }
}

/// A status with the given name and state and every number zero
/// (a temperature of `0.0` has the bit pattern `0`).
pub open spec fn blank_status(name: Seq<char>, state: PrintState) -> PrinterStatusView {
    PrinterStatusView {
        name,
        status: state,
        progress: 0,
        remaining_time: 0,
        nozzle_temp_bits: 0,
        bed_temp_bits: 0,
        layer_num: 0,
        total_layers: 0,
    }
}

fn blank(name: String, state: PrintState) -> (r: PrinterStatus)
    ensures
        r@ == blank_status(name@, state),
{
    PrinterStatus {
        name,
        status: state,
        progress: 0,
        remaining_time: 0,
        nozzle_temp_bits: 0,
        bed_temp_bits: 0,
        layer_num: 0,
        total_layers: 0,
    }
}

/// The status shown where there is no printer to show.
pub fn no_printer_status() -> (r: PrinterStatus)
    ensures
        r@ == blank_status(Seq::empty(), PrintState::NoPrinter),
{
    blank(String::new(), PrintState::NoPrinter)
}

/// The status of a printer that is not connected: unnamed before the first
/// connection, named after its configuration once a connection failed.
pub fn disconnected_status(name: String) -> (r: PrinterStatus)
    ensures
        r@ == blank_status(name@, PrintState::Disconnected),
{
    blank(name, PrintState::Disconnected)
}

pub open spec fn statuses_view(v: Seq<PrinterStatus>) -> Seq<PrinterStatusView> {
    v.map_values(|s: PrinterStatus| s@)
}

pub open spec fn configs_view(v: Seq<PrinterConfig>) -> Seq<PrinterConfigView> {
    v.map_values(|c: PrinterConfig| c@)
}

pub open spec fn is_printing(s: PrinterStatusView) -> bool {
    s.status == PrintState::Printing
}

pub open spec fn is_completed(s: PrinterStatusView) -> bool {
    s.status == PrintState::Completed
}

/// Printer `i` comes no later than printer `j` when ordered by remaining
/// time, ties broken by position.
pub open spec fn ranks_before(ss: Seq<PrinterStatusView>, i: int, j: int) -> bool {
    ||| ss[i].remaining_time < ss[j].remaining_time
    ||| (ss[i].remaining_time == ss[j].remaining_time && i <= j)
}

pub open spec fn any_printing(ss: Seq<PrinterStatusView>) -> bool {
    exists|i: int| 0 <= i < ss.len() && #[trigger] is_printing(ss[i])
}

pub open spec fn any_completed(ss: Seq<PrinterStatusView>) -> bool {
    exists|i: int| 0 <= i < ss.len() && #[trigger] is_completed(ss[i])
}

/// At least two printers are printing.
pub open spec fn two_printing(ss: Seq<PrinterStatusView>) -> bool {
    exists|i: int, j: int|
        0 <= i < j < ss.len() && #[trigger] is_printing(ss[i]) && #[trigger] is_printing(ss[j])
}

/// `i` is the printer shown first: among the printing ones, the one that
/// finishes soonest (the first of those that tie); with none printing, the
/// first completed one; with neither, the first printer.
pub open spec fn is_priority_index(ss: Seq<PrinterStatusView>, i: int) -> bool {
    &&& 0 <= i < ss.len()
    &&& if any_printing(ss) {
        &&& is_printing(ss[i])
        &&& forall|j: int| 0 <= j < ss.len() && #[trigger] is_printing(ss[j]) ==> ranks_before(ss, i, j)
    } else if any_completed(ss) {
        &&& is_completed(ss[i])
        &&& forall|j: int| 0 <= j < i ==> !#[trigger] is_completed(ss[j])
    } else {
        i == 0
    }
}

/// `i` is the printer shown second, given the first one `p`: with two or more
/// printing, the printing one that comes next after `p` by remaining time
/// (ties broken by position); otherwise the first printer other than `p`.
pub open spec fn is_secondary_index(ss: Seq<PrinterStatusView>, p: int, i: int) -> bool {
    if two_printing(ss) {
        &&& 0 <= i < ss.len()
        &&& is_printing(ss[i])
        &&& i != p
        &&& forall|k: int|
            0 <= k < ss.len() && #[trigger] is_printing(ss[k]) && k != p ==> ranks_before(ss, i, k)
    } else {
        i == (if p == 0 { 1int } else { 0int })
    }
}

pub open spec fn priority_of(ss: Seq<PrinterStatusView>) -> int {
    choose|i: int| is_priority_index(ss, i)
}

pub open spec fn secondary_of(ss: Seq<PrinterStatusView>) -> int {
    choose|i: int| is_secondary_index(ss, priority_of(ss), i)
}

/// The status shown first.
pub open spec fn priority_status(ss: Seq<PrinterStatusView>) -> PrinterStatusView {
    if ss.len() == 0 {
        blank_status(Seq::empty(), PrintState::NoPrinter)
    } else {
        ss[priority_of(ss)]
    }
}

/// The status shown second.
pub open spec fn secondary_status(ss: Seq<PrinterStatusView>) -> PrinterStatusView {
    if ss.len() < 2 {
        blank_status(Seq::empty(), PrintState::NoPrinter)
    } else {
        ss[secondary_of(ss)]
    }
}

/// The status of printer `i`, or the "no printer" status past the end.
pub open spec fn status_at(ss: Seq<PrinterStatusView>, i: int) -> PrinterStatusView {
    if 0 <= i < ss.len() {
        ss[i]
    } else {
        blank_status(Seq::empty(), PrintState::NoPrinter)
    }
}

pub proof fn lemma_priority_unique(ss: Seq<PrinterStatusView>, i: int, j: int)
    requires
        is_priority_index(ss, i),
        is_priority_index(ss, j),
    ensures
        i == j,
{
    if any_printing(ss) {
        assert(ranks_before(ss, i, j));
        assert(ranks_before(ss, j, i));
    } else if any_completed(ss) {
        if i < j {
            assert(!is_completed(ss[i]));
        } else if j < i {
            assert(!is_completed(ss[j]));
        }
    }
}

pub proof fn lemma_secondary_unique(ss: Seq<PrinterStatusView>, p: int, i: int, j: int)
    requires
        is_secondary_index(ss, p, i),
        is_secondary_index(ss, p, j),
    ensures
        i == j,
{
    if two_printing(ss) {
        assert(ranks_before(ss, i, j));
        assert(ranks_before(ss, j, i));
    }
}

/// Among the first `n` printers, if one is printing, one of them comes first
/// by remaining time.
proof fn lemma_soonest_printing_exists(ss: Seq<PrinterStatusView>, n: int)
    requires
        0 <= n <= ss.len(),
        exists|i: int| 0 <= i < n && #[trigger] is_printing(ss[i]),
    ensures
        exists|b: int|
            0 <= b < n && is_printing(ss[b]) && forall|j: int|
                0 <= j < n && #[trigger] is_printing(ss[j]) ==> ranks_before(ss, b, j),
    decreases n,
{
    if exists|i: int| 0 <= i < n - 1 && #[trigger] is_printing(ss[i]) {
        lemma_soonest_printing_exists(ss, n - 1);
        let b = choose|b: int|
            0 <= b < n - 1 && is_printing(ss[b]) && forall|j: int|
                0 <= j < n - 1 && #[trigger] is_printing(ss[j]) ==> ranks_before(ss, b, j);
        if is_printing(ss[n - 1]) && ss[n - 1].remaining_time < ss[b].remaining_time {
            assert forall|j: int| 0 <= j < n && #[trigger] is_printing(ss[j]) implies ranks_before(
                ss,
                n - 1,
                j,
            ) by {
                if j < n - 1 {
                    assert(ranks_before(ss, b, j));
                }
            }
        } else {
            assert forall|j: int| 0 <= j < n && #[trigger] is_printing(ss[j]) implies ranks_before(
                ss,
                b,
                j,
            ) by {
                if j < n - 1 {
                    assert(ranks_before(ss, b, j));
                }
            }
        }
    } else {
        assert(is_printing(ss[n - 1]));
        assert forall|j: int| 0 <= j < n && #[trigger] is_printing(ss[j]) implies ranks_before(
            ss,
            n - 1,
            j,
        ) by {
            if j < n - 1 {
                assert(!is_printing(ss[j]));
            }
        }
    }
}

/// Among the first `n` printers, if one is completed, there is a first one.
proof fn lemma_first_completed_exists(ss: Seq<PrinterStatusView>, n: int)
    requires
        0 <= n <= ss.len(),
        exists|i: int| 0 <= i < n && #[trigger] is_completed(ss[i]),
    ensures
        exists|b: int|
            0 <= b < n && is_completed(ss[b]) && forall|j: int|
                0 <= j < b ==> !#[trigger] is_completed(ss[j]),
    decreases n,
{
    if exists|i: int| 0 <= i < n - 1 && #[trigger] is_completed(ss[i]) {
        lemma_first_completed_exists(ss, n - 1);
    } else {
        assert(is_completed(ss[n - 1]));
        assert forall|j: int| 0 <= j < n - 1 implies !#[trigger] is_completed(ss[j]) by {}
    }
}

/// Every non-empty list of printers has a printer shown first.
pub proof fn lemma_priority_exists(ss: Seq<PrinterStatusView>)
    requires
        ss.len() > 0,
    ensures
        is_priority_index(ss, priority_of(ss)),
{
    if any_printing(ss) {
        lemma_soonest_printing_exists(ss, ss.len() as int);
        let b = choose|b: int|
            0 <= b < ss.len() && is_printing(ss[b]) && forall|j: int|
                0 <= j < ss.len() && #[trigger] is_printing(ss[j]) ==> ranks_before(ss, b, j);
        assert(is_priority_index(ss, b));
    } else if any_completed(ss) {
        lemma_first_completed_exists(ss, ss.len() as int);
        let b = choose|b: int|
            0 <= b < ss.len() && is_completed(ss[b]) && forall|j: int|
                0 <= j < b ==> !#[trigger] is_completed(ss[j]);
        assert(is_priority_index(ss, b));
    } else {
        assert(is_priority_index(ss, 0));
    }
}

/// Among the printing printers other than `p`, one comes first by remaining
/// time, where at least two print.
proof fn lemma_second_printing_exists(ss: Seq<PrinterStatusView>, p: int, n: int)
    requires
        0 <= n <= ss.len(),
        exists|i: int| 0 <= i < n && #[trigger] is_printing(ss[i]) && i != p,
    ensures
        exists|b: int|
            0 <= b < n && is_printing(ss[b]) && b != p && forall|k: int|
                0 <= k < n && #[trigger] is_printing(ss[k]) && k != p ==> ranks_before(ss, b, k),
    decreases n,
{
    if exists|i: int| 0 <= i < n - 1 && #[trigger] is_printing(ss[i]) && i != p {
        lemma_second_printing_exists(ss, p, n - 1);
        let b = choose|b: int|
            0 <= b < n - 1 && is_printing(ss[b]) && b != p && forall|k: int|
                0 <= k < n - 1 && #[trigger] is_printing(ss[k]) && k != p ==> ranks_before(
                    ss,
                    b,
                    k,
                );
        if is_printing(ss[n - 1]) && n - 1 != p && ss[n - 1].remaining_time
            < ss[b].remaining_time {
            assert forall|k: int|
                0 <= k < n && #[trigger] is_printing(ss[k]) && k != p implies ranks_before(
                ss,
                n - 1,
                k,
            ) by {
                if k < n - 1 {
                    assert(ranks_before(ss, b, k));
                }
            }
        } else {
            assert forall|k: int|
                0 <= k < n && #[trigger] is_printing(ss[k]) && k != p implies ranks_before(
                ss,
                b,
                k,
            ) by {
                if k < n - 1 {
                    assert(ranks_before(ss, b, k));
                }
            }
        }
    } else {
        assert forall|k: int|
            0 <= k < n && #[trigger] is_printing(ss[k]) && k != p implies ranks_before(
            ss,
            n - 1,
            k,
        ) by {
            if k < n - 1 {
                assert(!(is_printing(ss[k]) && k != p));
            }
        }
    }
}

/// Every list of two or more printers has a printer shown second.
pub proof fn lemma_secondary_exists(ss: Seq<PrinterStatusView>)
    requires
        ss.len() >= 2,
    ensures
        is_priority_index(ss, priority_of(ss)),
        is_secondary_index(ss, priority_of(ss), secondary_of(ss)),
{
    lemma_priority_exists(ss);
    let p = priority_of(ss);
    if two_printing(ss) {
        let (a, b) = choose|a: int, b: int|
            0 <= a < b < ss.len() && #[trigger] is_printing(ss[a]) && #[trigger] is_printing(ss[b]);
        if a != p {
            assert(0 <= a < ss.len() && is_printing(ss[a]) && a != p);
        } else {
            assert(0 <= b < ss.len() && is_printing(ss[b]) && b != p);
        }
        lemma_second_printing_exists(ss, p, ss.len() as int);
        let w = choose|w: int|
            0 <= w < ss.len() && is_printing(ss[w]) && w != p && forall|k: int|
                0 <= k < ss.len() && #[trigger] is_printing(ss[k]) && k != p ==> ranks_before(
                    ss,
                    w,
                    k,
                );
        assert(is_secondary_index(ss, p, w));
    } else {
        assert(is_secondary_index(ss, p, if p == 0 { 1int } else { 0int }));
    }
}

/// Law: where two or more printers are configured, the capsule shows two
/// different printers, both of them configured ones.
pub proof fn law_secondary_differs_from_priority(ss: Seq<PrinterStatusView>)
    requires
        ss.len() >= 2,
    ensures
        0 <= priority_of(ss) < ss.len(),
        0 <= secondary_of(ss) < ss.len(),
        secondary_of(ss) != priority_of(ss),
{
    lemma_secondary_exists(ss);
}

/// Law: while any printer prints, the printer shown first is a printing one
/// that finishes no later than any other printing one.
pub proof fn law_priority_finishes_soonest(ss: Seq<PrinterStatusView>)
    requires
        any_printing(ss),
    ensures
        is_printing(priority_status(ss)),
        forall|j: int|
            0 <= j < ss.len() && #[trigger] is_printing(ss[j]) ==> priority_status(ss).remaining_time
                <= ss[j].remaining_time,
{
    lemma_priority_exists(ss);
    let p = priority_of(ss);
    assert forall|j: int|
        0 <= j < ss.len() && #[trigger] is_printing(ss[j]) implies priority_status(
        ss,
    ).remaining_time <= ss[j].remaining_time by {
        assert(ranks_before(ss, p, j));
    }
}

/// Law: while two or more printers print, the printer shown second is a
/// printing one other than the printer shown first, and finishes no later
/// than every other printing printer but the first (of those that tie, the
/// earliest in the list); the printer shown first finishes no later than any
/// printing printer.
pub proof fn law_secondary_finishes_next(ss: Seq<PrinterStatusView>)
    requires
        exists|a: int, b: int|
            0 <= a < b < ss.len() && ss[a].status == PrintState::Printing && ss[b].status
                == PrintState::Printing,
    ensures
        0 <= priority_of(ss) < ss.len(),
        0 <= secondary_of(ss) < ss.len(),
        secondary_of(ss) != priority_of(ss),
        secondary_status(ss) == ss[secondary_of(ss)],
        priority_status(ss) == ss[priority_of(ss)],
        ss[priority_of(ss)].status == PrintState::Printing,
        ss[secondary_of(ss)].status == PrintState::Printing,
        forall|k: int|
            0 <= k < ss.len() && ss[k].status == PrintState::Printing ==> ss[priority_of(
                ss,
            )].remaining_time <= #[trigger] ss[k].remaining_time,
        forall|k: int|
            0 <= k < ss.len() && ss[k].status == PrintState::Printing && k != priority_of(ss)
                ==> ss[secondary_of(ss)].remaining_time < #[trigger] ss[k].remaining_time || (
            ss[secondary_of(ss)].remaining_time == ss[k].remaining_time && secondary_of(ss) <= k),
{
    let (a, b) = choose|a: int, b: int|
        0 <= a < b < ss.len() && ss[a].status == PrintState::Printing && ss[b].status
            == PrintState::Printing;
    assert(is_printing(ss[a]) && is_printing(ss[b]));
    assert(two_printing(ss));
    assert(any_printing(ss));
    lemma_secondary_exists(ss);
    let p = priority_of(ss);
    let q = secondary_of(ss);
    assert forall|k: int| 0 <= k < ss.len() && ss[k].status == PrintState::Printing implies ss[p].remaining_time
        <= #[trigger] ss[k].remaining_time by {
        assert(is_printing(ss[k]));
        assert(ranks_before(ss, p, k));
    }
    assert forall|k: int|
        0 <= k < ss.len() && ss[k].status == PrintState::Printing && k != p implies ss[q].remaining_time
        < #[trigger] ss[k].remaining_time || (ss[q].remaining_time == ss[k].remaining_time && q <= k) by {
        assert(is_printing(ss[k]));
        assert(ranks_before(ss, q, k));
    }
}

/// The index of the printer shown first (`Some(0)` where there is none).
fn find_priority_index(statuses: &Vec<PrinterStatus>) -> (r: Option<usize>)
    ensures
        r is Some,
        statuses@.len() == 0 ==> r == Some(0usize),
        statuses@.len() > 0 ==> is_priority_index(statuses_view(statuses@), r->0 as int),
{
    let ghost ss = statuses_view(statuses@);
    let n = statuses.len();
    let mut best: Option<usize> = None;
    let mut i: usize = 0;
    while i < n
        invariant
            n == statuses@.len(),
            ss == statuses_view(statuses@),
            i <= n,
            best matches Some(b) ==> b < i && is_printing(ss[b as int]) && forall|j: int|
                0 <= j < i && #[trigger] is_printing(ss[j]) ==> ranks_before(ss, b as int, j),
            best is None ==> forall|j: int| 0 <= j < i ==> !#[trigger] is_printing(ss[j]),
        decreases n - i,
    {
        if statuses[i].status == PrintState::Printing {
            match best {
                None => {
                    best = Some(i);
                },
                Some(b) => {
                    if statuses[i].remaining_time < statuses[b].remaining_time {
                        best = Some(i);
                    }
                },
            }
        }
        i = i + 1;
    }
    if best.is_some() {
        return best;
    }
    let mut k: usize = 0;
    while k < n
        invariant
            n == statuses@.len(),
            ss == statuses_view(statuses@),
            k <= n,
            !any_printing(ss),
            forall|j: int| 0 <= j < k ==> !#[trigger] is_completed(ss[j]),
        decreases n - k,
    {
        if statuses[k].status == PrintState::Completed {
            assert(is_completed(ss[k as int]));
            return Some(k);
        }
        k = k + 1;
    }
    Some(0)
}

/// The index of the printer shown second; at least two printers are given.
fn find_secondary_index(statuses: &Vec<PrinterStatus>) -> (r: usize)
    requires
        statuses@.len() >= 2,
    ensures
        is_secondary_index(statuses_view(statuses@), priority_of(statuses_view(statuses@)), r as int),
        r < statuses@.len(),
{
    let ghost ss = statuses_view(statuses@);
    let p = find_priority_index(statuses).unwrap();
    proof {
        lemma_priority_exists(ss);
        lemma_priority_unique(ss, p as int, priority_of(ss));
    }
    let n = statuses.len();
    let mut first: Option<usize> = None;
    let mut two = false;
    let mut i: usize = 0;
    while i < n
        invariant
            n == statuses@.len(),
            ss == statuses_view(statuses@),
            i <= n,
            first matches Some(f) ==> f < i && is_printing(ss[f as int]),
            first is None ==> forall|j: int| 0 <= j < i ==> !#[trigger] is_printing(ss[j]),
            two ==> first is Some,
            two <==> exists|a: int, b: int|
                0 <= a < b < i && #[trigger] is_printing(ss[a]) && #[trigger] is_printing(ss[b]),
        decreases n - i,
    {
        let ghost old_first = first;
        if statuses[i].status == PrintState::Printing {
            match first {
                None => {
                    first = Some(i);
                },
                Some(f) => {
                    assert(is_printing(ss[f as int]) && is_printing(ss[i as int]));
                    two = true;
                },
            }
        }
        proof {
            if !two {
                assert forall|a: int, b: int|
                    0 <= a < b < i + 1 && #[trigger] is_printing(ss[a]) implies !#[trigger] is_printing(
                    ss[b],
                ) by {
                    if b == i {
                        assert(old_first is Some);
                    }
                }
            }
        }
        i = i + 1;
    }
    if !two {
        return if p == 0 {
            1
        } else {
            0
        };
    }
    let mut best: Option<usize> = None;
    let mut k: usize = 0;
    while k < n
        invariant
            n == statuses@.len(),
            ss == statuses_view(statuses@),
            k <= n,
            p < n,
            best matches Some(b) ==> b < k && b != p && is_printing(ss[b as int]) && forall|j: int|
                0 <= j < k && #[trigger] is_printing(ss[j]) && j != p ==> ranks_before(
                    ss,
                    b as int,
                    j,
                ),
            best is None ==> forall|j: int| 0 <= j < k && j != p ==> !#[trigger] is_printing(ss[j]),
        decreases n - k,
    {
        if k != p && statuses[k].status == PrintState::Printing {
            match best {
                None => {
                    best = Some(k);
                },
                Some(b) => {
                    if statuses[k].remaining_time < statuses[b].remaining_time {
                        best = Some(k);
                    }
                },
            }
        }
        k = k + 1;
    }
    proof {
        let (a, b) = choose|a: int, b: int|
            0 <= a < b < n && #[trigger] is_printing(ss[a]) && #[trigger] is_printing(ss[b]);
        if a != p as int {
            assert(is_printing(ss[a]));
        } else {
            assert(is_printing(ss[b]));
        }
    }
    best.unwrap()
}

/// The configured printers and the latest status of each.
pub struct PrinterManager {
    configs: Vec<PrinterConfig>,
    statuses: Vec<PrinterStatus>,
}

pub struct PrinterManagerView {
    pub configs: Seq<PrinterConfigView>,
    pub statuses: Seq<PrinterStatusView>,
}

impl View for PrinterManager {
    type V = PrinterManagerView;

    closed spec fn view(&self) -> PrinterManagerView {
        PrinterManagerView {
            configs: configs_view(self.configs@),
            statuses: statuses_view(self.statuses@),
        }
    }
}

impl PrinterManager {
    /// No printers and no statuses.
    pub fn new() -> (r: Self)
        ensures
            r@.configs == Seq::<PrinterConfigView>::empty(),
            r@.statuses == Seq::<PrinterStatusView>::empty(),
    {
        let r = PrinterManager { configs: Vec::new(), statuses: Vec::new() };
        assert(configs_view(r.configs@) =~= Seq::<PrinterConfigView>::empty());
        assert(statuses_view(r.statuses@) =~= Seq::<PrinterStatusView>::empty());
        r
    }

    /// Takes the configurations read from the configuration file: each
    /// printer starts out disconnected and unnamed.
    pub fn load_configs(&mut self, configs: Vec<PrinterConfig>)
        ensures
            final(self)@.configs == configs_view(configs@),
            final(self)@.statuses == Seq::new(
                configs@.len(),
                |i: int| blank_status(Seq::empty(), PrintState::Disconnected),
            ),
    {
        let count = configs.len();
        let mut statuses: Vec<PrinterStatus> = Vec::new();
        let mut i: usize = 0;
        while i < count
            invariant
                i <= count,
                statuses_view(statuses@) =~= Seq::new(
                    i as nat,
                    |j: int| blank_status(Seq::empty(), PrintState::Disconnected),
                ),
            decreases count - i,
        {
            let s = disconnected_status(String::new());
            let ghost before = statuses@;
            statuses.push(s);
            assert(statuses_view(statuses@) =~= statuses_view(before).push(s@));
            i = i + 1;
        }
        self.configs = configs;
        self.statuses = statuses;
    }

    /// Replaces the configurations; the statuses stay as they are.
    pub fn set_configs(&mut self, configs: Vec<PrinterConfig>)
        ensures
            final(self)@.configs == configs_view(configs@),
            final(self)@.statuses == old(self)@.statuses,
    {
        self.configs = configs;
    }

    /// A copy of the configurations.
    pub fn get_configs(&self) -> (r: Vec<PrinterConfig>)
        ensures
            configs_view(r@) == self@.configs,
    {
        let n = self.configs.len();
        let mut r: Vec<PrinterConfig> = Vec::new();
        let mut i: usize = 0;
        while i < n
            invariant
                n == self.configs@.len(),
                i <= n,
                configs_view(r@) =~= configs_view(self.configs@).take(i as int),
            decreases n - i,
        {
            let c = self.configs[i].clone();
            let ghost before = r@;
            r.push(c);
            assert(configs_view(r@) =~= configs_view(before).push(c@));
            assert(configs_view(self.configs@).take(i + 1) =~= configs_view(self.configs@).take(
                i as int,
            ).push(c@));
            i = i + 1;
        }
        assert(configs_view(self.configs@).take(n as int) =~= configs_view(self.configs@));
        r
    }

    /// The status of printer `index`, or the "no printer" status.
    pub fn get_status(&self, index: usize) -> (r: PrinterStatus)
        ensures
            r@ == status_at(self@.statuses, index as int),
    {
        if index < self.statuses.len() {
            self.statuses[index].clone()
        } else {
            no_printer_status()
        }
    }

    /// The status shown first (see `is_priority_index`), or the "no printer"
    /// status where there are no printers.
    pub fn get_priority_status(&self) -> (r: PrinterStatus)
        ensures
            r@ == priority_status(self@.statuses),
    {
        let ghost ss = statuses_view(self.statuses@);
        if self.statuses.len() == 0 {
            return no_printer_status();
        }
        let p = find_priority_index(&self.statuses).unwrap();
        proof {
            lemma_priority_exists(ss);
            lemma_priority_unique(ss, p as int, priority_of(ss));
        }
        self.statuses[p].clone()
    }

    /// The status shown second (see `is_secondary_index`), or the "no
    /// printer" status where there are fewer than two printers.
    pub fn get_secondary_status(&self) -> (r: PrinterStatus)
        ensures
            r@ == secondary_status(self@.statuses),
    {
        let ghost ss = statuses_view(self.statuses@);
        if self.statuses.len() < 2 {
            return no_printer_status();
        }
        let i = find_secondary_index(&self.statuses);
        proof {
            lemma_secondary_exists(ss);
            lemma_secondary_unique(ss, priority_of(ss), i as int, secondary_of(ss));
        }
        self.statuses[i].clone()
    }

    /// Records the latest status of printer `index`; an index past the end is
    /// ignored.
    pub fn update_status(&mut self, index: usize, status: PrinterStatus)
        ensures
            final(self)@.configs == old(self)@.configs,
            final(self)@.statuses == (if index < old(self)@.statuses.len() {
                old(self)@.statuses.update(index as int, status@)
            } else {
                old(self)@.statuses
            }),
    {
        if index < self.statuses.len() {
            self.statuses.set(index, status);
            assert(statuses_view(self.statuses@) =~= statuses_view(old(self).statuses@).update(
                index as int,
                status@,
            ));
        }
    }
}

/// Law: a status recorded for a configured printer is the status read back
/// for it, and the other printers keep theirs.
pub proof fn law_status_read_after_update(
    ss: Seq<PrinterStatusView>,
    index: int,
    s: PrinterStatusView,
    other: int,
)
    requires
        0 <= index < ss.len(),
        other != index,
    ensures
        status_at(ss.update(index, s), index) == s,
        status_at(ss.update(index, s), other) == status_at(ss, other),
{
}

} // verus!
