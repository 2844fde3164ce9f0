//! The decisions of the floating panel: which rows it shows, how tall its
//! columns are, what the tray menu and the pass-through switch ask of the
//! window.

use vstd::prelude::*;
use crate::config::DisplayConfig;
use crate::text::{decimal, digits_value, is_digit, lemma_decimal_reads_back, push_decimal};
use crate::tray::TrayEvent;
use crate::ui::settings_dialog::SettingsDialog;

verus! {

/// A row of the floating panel.
#[derive(Debug, Clone, Copy, PartialEq, Eq, Structural)]
pub enum PanelRow {
    /// Upload speed, with its unit when `unit` holds.
    Upload { unit: bool },
    /// Download speed, with its unit when `unit` holds.
    Download { unit: bool },
    /// Graph of the recent speeds.
    NetGraph,
    /// CPU usage, with its bar when `bar` holds and a percent sign when
    /// `percent` holds.
    CpuUsage { bar: bool, percent: bool },
    /// CPU temperature.
    CpuTemp,
    /// CPU temperature, when no sensor gave one ("N/A").
    CpuTempUnavailable,
    /// Memory usage, with its bar and percent sign as for the CPU.
    Memory { bar: bool, percent: bool },
    /// GPU usage, with its bar and percent sign as for the CPU.
    GpuUsage { bar: bool, percent: bool },
    /// GPU usage, when no GPU can be read ("N/A").
    GpuUnavailable,
    /// GPU temperature.
    GpuTemp,
    /// Video memory in use and in total.
    Vram,
}

/// `seq![r]` when `c` holds, else the empty sequence.
pub open spec fn row_if(c: bool, r: PanelRow) -> Seq<PanelRow> {
    if c { seq![r] } else { Seq::empty() }
}

/// The rows of the left column (network), top to bottom.
pub open spec fn left_rows(d: DisplayConfig) -> Seq<PanelRow> {
    row_if(d.show_upload, PanelRow::Upload { unit: d.show_units })
        + row_if(d.show_download, PanelRow::Download { unit: d.show_units })
        + row_if(d.show_net_graph, PanelRow::NetGraph)
}

/// The CPU and memory rows, which open the right column.
pub open spec fn cpu_memory_rows(d: DisplayConfig, cpu_temp_known: bool) -> Seq<PanelRow> {
    row_if(d.show_cpu, PanelRow::CpuUsage { bar: d.show_cpu_bar, percent: d.show_percent_sign })
        + row_if(d.show_cpu_temp, if cpu_temp_known { PanelRow::CpuTemp } else { PanelRow::CpuTempUnavailable })
        + row_if(d.show_memory, PanelRow::Memory { bar: d.show_mem_bar, percent: d.show_percent_sign })
}

/// The GPU rows, which close the right column. The GPU temperature and
/// video memory rows need a readable GPU.
pub open spec fn gpu_rows(d: DisplayConfig, gpu_available: bool) -> Seq<PanelRow> {
    row_if(d.show_gpu, if gpu_available {
        PanelRow::GpuUsage { bar: d.show_gpu_bar, percent: d.show_percent_sign }
    } else {
        PanelRow::GpuUnavailable
    })
        + row_if(d.show_gpu_temp && gpu_available, PanelRow::GpuTemp)
        + row_if(d.show_vram && gpu_available, PanelRow::Vram)
}

/// The rows of the right column (CPU, memory, GPU), top to bottom.
pub open spec fn right_rows(d: DisplayConfig, cpu_temp_known: bool, gpu_available: bool) -> Seq<PanelRow> {
    cpu_memory_rows(d, cpu_temp_known) + gpu_rows(d, gpu_available)
}

/// The rows of the left column.
pub fn left_column(d: &DisplayConfig) -> (res: Vec<PanelRow>)
    ensures
        res@ == left_rows(*d),
{
    let mut v: Vec<PanelRow> = Vec::new();
    if d.show_upload {
        v.push(PanelRow::Upload { unit: d.show_units });
    }
    if d.show_download {
        v.push(PanelRow::Download { unit: d.show_units });
    }
    if d.show_net_graph {
        v.push(PanelRow::NetGraph);
    }
    assert(v@ =~= left_rows(*d));
    v
}

/// The rows of the right column; `cpu_temp_known` says whether a CPU
/// sensor gave a temperature, `gpu_available` whether the GPU can be read.
pub fn right_column(d: &DisplayConfig, cpu_temp_known: bool, gpu_available: bool) -> (res: Vec<PanelRow>)
    ensures
        res@ == right_rows(*d, cpu_temp_known, gpu_available),
{
    let mut v: Vec<PanelRow> = Vec::new();
    if d.show_cpu {
        v.push(PanelRow::CpuUsage { bar: d.show_cpu_bar, percent: d.show_percent_sign });
    }
    if d.show_cpu_temp {
        if cpu_temp_known {
            v.push(PanelRow::CpuTemp);
        } else {
            v.push(PanelRow::CpuTempUnavailable);
        }
    }
    if d.show_memory {
        v.push(PanelRow::Memory { bar: d.show_mem_bar, percent: d.show_percent_sign });
    }
    if d.show_gpu {
        if gpu_available {
            v.push(PanelRow::GpuUsage { bar: d.show_gpu_bar, percent: d.show_percent_sign });
        } else {
            v.push(PanelRow::GpuUnavailable);
        }
    }
    if d.show_gpu_temp && gpu_available {
        v.push(PanelRow::GpuTemp);
    }
    if d.show_vram && gpu_available {
        v.push(PanelRow::Vram);
    }
    assert(v@ =~= right_rows(*d, cpu_temp_known, gpu_available));
    v
}

/// A step of height that a column adds to the window: a text row, a
/// progress bar, or the network graph (each with the gap below it).
#[derive(Debug, Clone, Copy, PartialEq, Eq, Structural)]
pub enum SizeStep {
    Row,
    Bar,
    Graph,
}

/// `seq![s]` when `c` holds, else the empty sequence.
pub open spec fn step_if(c: bool, s: SizeStep) -> Seq<SizeStep> {
    if c { seq![s] } else { Seq::empty() }
}

/// The height steps of the left column, in the order they are added when
/// the window's size is computed.
pub open spec fn left_steps(d: DisplayConfig) -> Seq<SizeStep> {
    step_if(d.show_upload, SizeStep::Row)
        + step_if(d.show_download, SizeStep::Row)
        + step_if(d.show_net_graph, SizeStep::Graph)
}

/// The height steps of the right column. A bar counts only under a shown
/// usage row; the GPU temperature and video memory rows count whether or
/// not the GPU can be read.
pub open spec fn right_steps(d: DisplayConfig) -> Seq<SizeStep> {
    step_if(d.show_cpu, SizeStep::Row)
        + step_if(d.show_cpu && d.show_cpu_bar, SizeStep::Bar)
        + step_if(d.show_cpu_temp, SizeStep::Row)
        + step_if(d.show_memory, SizeStep::Row)
        + step_if(d.show_memory && d.show_mem_bar, SizeStep::Bar)
        + step_if(d.show_gpu, SizeStep::Row)
        + step_if(d.show_gpu && d.show_gpu_bar, SizeStep::Bar)
        + step_if(d.show_gpu_temp, SizeStep::Row)
        + step_if(d.show_vram, SizeStep::Row)
}

/// The height steps of the left column.
pub fn left_size_steps(d: &DisplayConfig) -> (res: Vec<SizeStep>)
    ensures
        res@ == left_steps(*d),
{
    let mut v: Vec<SizeStep> = Vec::new();
    if d.show_upload {
        v.push(SizeStep::Row);
    }
    if d.show_download {
        v.push(SizeStep::Row);
    }
    if d.show_net_graph {
        v.push(SizeStep::Graph);
    }
    assert(v@ =~= left_steps(*d));
    v
}

/// The height steps of the right column.
pub fn right_size_steps(d: &DisplayConfig) -> (res: Vec<SizeStep>)
    ensures
        res@ == right_steps(*d),
{
    let mut v: Vec<SizeStep> = Vec::new();
    push_step_if(&mut v, d.show_cpu, SizeStep::Row);
    push_step_if(&mut v, d.show_cpu && d.show_cpu_bar, SizeStep::Bar);
    push_step_if(&mut v, d.show_cpu_temp, SizeStep::Row);
    push_step_if(&mut v, d.show_memory, SizeStep::Row);
    push_step_if(&mut v, d.show_memory && d.show_mem_bar, SizeStep::Bar);
    push_step_if(&mut v, d.show_gpu, SizeStep::Row);
    push_step_if(&mut v, d.show_gpu && d.show_gpu_bar, SizeStep::Bar);
    push_step_if(&mut v, d.show_gpu_temp, SizeStep::Row);
    push_step_if(&mut v, d.show_vram, SizeStep::Row);
    assert(v@ =~= right_steps(*d));
    v
}

fn push_step_if(v: &mut Vec<SizeStep>, c: bool, s: SizeStep)
    ensures
        final(v)@ == old(v)@ + step_if(c, s),
{
    if c {
        v.push(s);
    }
    assert(v@ =~= old(v)@ + step_if(c, s));
}

/// What the video memory row reads: `"used/total MB"`, or `"N/A"` when the
/// total is unknown (zero).
pub open spec fn vram_label(used_mb: nat, total_mb: nat) -> Seq<char> {
    if total_mb > 0 {
        decimal(used_mb) + "/"@ + decimal(total_mb) + " MB"@
    } else {
        "N/A"@
    }
}

/// The text of the video memory row.
pub fn vram_text(used_mb: u64, total_mb: u64) -> (res: String)
    ensures
        res@ == vram_label(used_mb as nat, total_mb as nat),
{
    if total_mb > 0 {
        let mut s = String::new();
        push_decimal(&mut s, used_mb);
        s.append("/");
        push_decimal(&mut s, total_mb);
        s.append(" MB");
        assert(s@ =~= vram_label(used_mb as nat, total_mb as nat));
        s
    } else {
        String::from_str("N/A")
    }
}

/// The mouse pass-through setting to send to the window, if any: the wanted
/// one, unless it is the one sent last.
pub fn passthrough_update(last_sent: Option<bool>, wanted: bool) -> (res: Option<bool>)
    ensures
        res == if last_sent == Some(wanted) { None::<bool> } else { Some(wanted) },
{
    match last_sent {
        Some(b) if b == wanted => None,
        _ => Some(wanted),
    }
}

/// Applies a tray menu event: "options" opens the options dialog, "exit"
/// asks the application to save its configuration and close (the result is
/// `true` then and only then).
pub fn apply_tray_event(dialog: &mut SettingsDialog, event: Option<TrayEvent>) -> (quit: bool)
    ensures
        quit == (event == Some(TrayEvent::Exit)),
        final(dialog).selected_tab() == old(dialog).selected_tab(),
        final(dialog).is_open() == (old(dialog).is_open() || event == Some(TrayEvent::ShowOptions)),
{
    match event {
        Some(TrayEvent::ShowOptions) => {
            dialog.set_open(true);
            false
        },
        Some(TrayEvent::Exit) => true,
        None => false,
    }
}

/// How many times `x` occurs in `s`.
pub open spec fn count_of<T>(s: Seq<T>, x: T) -> nat
    decreases s.len(),
{
    if s.len() == 0 {
        0
    } else {
        count_of(s.drop_last(), x) + if s.last() == x { 1nat } else { 0nat }
    }
}

/// One for a condition that holds, zero otherwise.
pub open spec fn ind(c: bool) -> nat {
    if c { 1 } else { 0 }
}

proof fn lemma_count_concat<T>(a: Seq<T>, b: Seq<T>, x: T)
    ensures
        count_of(a + b, x) == count_of(a, x) + count_of(b, x),
    decreases b.len(),
{
    if b.len() == 0 {
        assert(a + b =~= a);
    } else {
        lemma_count_concat(a, b.drop_last(), x);
        assert((a + b).drop_last() =~= a + b.drop_last());
        assert((a + b).last() == b.last());
    }
}

proof fn lemma_count_single<T>(y: T, x: T)
    ensures
        count_of(seq![y], x) == ind(y == x),
        count_of(Seq::<T>::empty(), x) == 0,
{
    assert(seq![y].drop_last() =~= Seq::<T>::empty());
    assert(seq![y].last() == y);
    assert(count_of(seq![y].drop_last(), x) == 0);
}

proof fn lemma_count_row_if(c: bool, r: PanelRow, x: PanelRow)
    ensures
        count_of(row_if(c, r), x) == ind(c && r == x),
{
    lemma_count_single(r, x);
}

proof fn lemma_count_step_if(c: bool, s: SizeStep, x: SizeStep)
    ensures
        count_of(step_if(c, s), x) == ind(c && s == x),
{
    lemma_count_single(s, x);
}

/// The left column holds one upload row when the upload speed is shown,
/// one download row when the download speed is shown, one graph when the
/// graph is shown, each with the unit as the settings say, and nothing else.
pub proof fn lemma_left_rows_follow_settings(d: DisplayConfig)
    ensures
        left_rows(d).len() == ind(d.show_upload) + ind(d.show_download) + ind(d.show_net_graph),
        count_of(left_rows(d), (PanelRow::Upload { unit: d.show_units })) == ind(d.show_upload),
        count_of(left_rows(d), (PanelRow::Download { unit: d.show_units })) == ind(d.show_download),
        count_of(left_rows(d), PanelRow::NetGraph) == ind(d.show_net_graph),
        d.show_upload ==> left_rows(d)[0] == (PanelRow::Upload { unit: d.show_units }),
{
    let a = row_if(d.show_upload, PanelRow::Upload { unit: d.show_units });
    let b = row_if(d.show_download, PanelRow::Download { unit: d.show_units });
    let c = row_if(d.show_net_graph, PanelRow::NetGraph);
    let xs = seq![
        PanelRow::Upload { unit: d.show_units },
        PanelRow::Download { unit: d.show_units },
        PanelRow::NetGraph,
    ];
    assert forall|i: int| 0 <= i < 3 implies
        count_of(left_rows(d), #[trigger] xs[i]) == count_of(a, xs[i]) + count_of(b, xs[i]) + count_of(c, xs[i]) by {
        lemma_count_concat(a, b, xs[i]);
        lemma_count_concat(a + b, c, xs[i]);
    }
    assert(xs[0] == PanelRow::Upload { unit: d.show_units });
    assert(xs[1] == PanelRow::Download { unit: d.show_units });
    assert(xs[2] == PanelRow::NetGraph);
    lemma_count_row_if(d.show_upload, PanelRow::Upload { unit: d.show_units }, xs[0]);
    lemma_count_row_if(d.show_download, PanelRow::Download { unit: d.show_units }, xs[0]);
    lemma_count_row_if(d.show_net_graph, PanelRow::NetGraph, xs[0]);
    lemma_count_row_if(d.show_upload, PanelRow::Upload { unit: d.show_units }, xs[1]);
    lemma_count_row_if(d.show_download, PanelRow::Download { unit: d.show_units }, xs[1]);
    lemma_count_row_if(d.show_net_graph, PanelRow::NetGraph, xs[1]);
    lemma_count_row_if(d.show_upload, PanelRow::Upload { unit: d.show_units }, xs[2]);
    lemma_count_row_if(d.show_download, PanelRow::Download { unit: d.show_units }, xs[2]);
    lemma_count_row_if(d.show_net_graph, PanelRow::NetGraph, xs[2]);
}

proof fn lemma_right_rows_count(d: DisplayConfig, cpu_temp_known: bool, gpu_available: bool, x: PanelRow)
    ensures
        count_of(right_rows(d, cpu_temp_known, gpu_available), x)
            == ind(d.show_cpu && (PanelRow::CpuUsage { bar: d.show_cpu_bar, percent: d.show_percent_sign }) == x)
            + ind(d.show_cpu_temp && (if cpu_temp_known { PanelRow::CpuTemp } else { PanelRow::CpuTempUnavailable }) == x)
            + ind(d.show_memory && (PanelRow::Memory { bar: d.show_mem_bar, percent: d.show_percent_sign }) == x)
            + ind(d.show_gpu && (if gpu_available {
                PanelRow::GpuUsage { bar: d.show_gpu_bar, percent: d.show_percent_sign }
            } else {
                PanelRow::GpuUnavailable
            }) == x)
            + ind(d.show_gpu_temp && gpu_available && PanelRow::GpuTemp == x)
            + ind(d.show_vram && gpu_available && PanelRow::Vram == x),
{
    let s1 = row_if(d.show_cpu, PanelRow::CpuUsage { bar: d.show_cpu_bar, percent: d.show_percent_sign });
    let s2 = row_if(d.show_cpu_temp, if cpu_temp_known { PanelRow::CpuTemp } else { PanelRow::CpuTempUnavailable });
    let s3 = row_if(d.show_memory, PanelRow::Memory { bar: d.show_mem_bar, percent: d.show_percent_sign });
    let s4 = row_if(d.show_gpu, if gpu_available {
        PanelRow::GpuUsage { bar: d.show_gpu_bar, percent: d.show_percent_sign }
    } else {
        PanelRow::GpuUnavailable
    });
    let s5 = row_if(d.show_gpu_temp && gpu_available, PanelRow::GpuTemp);
    let s6 = row_if(d.show_vram && gpu_available, PanelRow::Vram);
    lemma_count_concat(s1, s2, x);
    lemma_count_concat(s1 + s2, s3, x);
    lemma_count_concat(s4, s5, x);
    lemma_count_concat(s4 + s5, s6, x);
    lemma_count_concat(s1 + s2 + s3, s4 + s5 + s6, x);
    lemma_count_row_if(d.show_cpu, PanelRow::CpuUsage { bar: d.show_cpu_bar, percent: d.show_percent_sign }, x);
    lemma_count_row_if(d.show_cpu_temp, if cpu_temp_known { PanelRow::CpuTemp } else { PanelRow::CpuTempUnavailable }, x);
    lemma_count_row_if(d.show_memory, PanelRow::Memory { bar: d.show_mem_bar, percent: d.show_percent_sign }, x);
    lemma_count_row_if(d.show_gpu, if gpu_available {
        PanelRow::GpuUsage { bar: d.show_gpu_bar, percent: d.show_percent_sign }
    } else {
        PanelRow::GpuUnavailable
    }, x);
    lemma_count_row_if(d.show_gpu_temp && gpu_available, PanelRow::GpuTemp, x);
    lemma_count_row_if(d.show_vram && gpu_available, PanelRow::Vram, x);
}

/// The right column holds each shown item once, and the CPU temperature
/// reads a value exactly when a CPU sensor gave one, whatever the GPU: a
/// CPU temperature row when shown and known, an "N/A" one when shown and
/// unknown; a GPU usage row when shown and readable, an "N/A" one when
/// shown and unreadable; GPU temperature and video memory rows only for a
/// readable GPU.
pub proof fn lemma_right_rows_follow_settings(d: DisplayConfig, cpu_temp_known: bool, gpu_available: bool)
    ensures
        ({
            let r = right_rows(d, cpu_temp_known, gpu_available);
            &&& r.len() == ind(d.show_cpu) + ind(d.show_cpu_temp) + ind(d.show_memory) + ind(d.show_gpu)
                + ind(d.show_gpu_temp && gpu_available) + ind(d.show_vram && gpu_available)
            &&& count_of(r, (PanelRow::CpuUsage { bar: d.show_cpu_bar, percent: d.show_percent_sign })) == ind(d.show_cpu)
            &&& count_of(r, PanelRow::CpuTemp) == ind(d.show_cpu_temp && cpu_temp_known)
            &&& count_of(r, PanelRow::CpuTempUnavailable) == ind(d.show_cpu_temp && !cpu_temp_known)
            &&& count_of(r, (PanelRow::Memory { bar: d.show_mem_bar, percent: d.show_percent_sign })) == ind(d.show_memory)
            &&& count_of(r, (PanelRow::GpuUsage { bar: d.show_gpu_bar, percent: d.show_percent_sign }))
                == ind(d.show_gpu && gpu_available)
            &&& count_of(r, PanelRow::GpuUnavailable) == ind(d.show_gpu && !gpu_available)
            &&& count_of(r, PanelRow::GpuTemp) == ind(d.show_gpu_temp && gpu_available)
            &&& count_of(r, PanelRow::Vram) == ind(d.show_vram && gpu_available)
        }),
{
    lemma_right_rows_count(d, cpu_temp_known, gpu_available, PanelRow::CpuUsage { bar: d.show_cpu_bar, percent: d.show_percent_sign });
    lemma_right_rows_count(d, cpu_temp_known, gpu_available, PanelRow::CpuTemp);
    lemma_right_rows_count(d, cpu_temp_known, gpu_available, PanelRow::CpuTempUnavailable);
    lemma_right_rows_count(d, cpu_temp_known, gpu_available, PanelRow::Memory { bar: d.show_mem_bar, percent: d.show_percent_sign });
    lemma_right_rows_count(d, cpu_temp_known, gpu_available, PanelRow::GpuUsage { bar: d.show_gpu_bar, percent: d.show_percent_sign });
    lemma_right_rows_count(d, cpu_temp_known, gpu_available, PanelRow::GpuUnavailable);
    lemma_right_rows_count(d, cpu_temp_known, gpu_available, PanelRow::GpuTemp);
    lemma_right_rows_count(d, cpu_temp_known, gpu_available, PanelRow::Vram);
}

/// The CPU and memory rows, which come first, do not depend on the GPU,
/// and the GPU rows after them do not depend on the CPU temperature.
pub proof fn lemma_right_rows_independent(d: DisplayConfig, k1: bool, k2: bool, g1: bool, g2: bool)
    ensures
        right_rows(d, k1, g1).take((ind(d.show_cpu) + ind(d.show_cpu_temp) + ind(d.show_memory)) as int)
            == right_rows(d, k1, g2).take((ind(d.show_cpu) + ind(d.show_cpu_temp) + ind(d.show_memory)) as int),
        right_rows(d, k1, g1).skip((ind(d.show_cpu) + ind(d.show_cpu_temp) + ind(d.show_memory)) as int)
            == right_rows(d, k2, g1).skip((ind(d.show_cpu) + ind(d.show_cpu_temp) + ind(d.show_memory)) as int),
{
    let m = ind(d.show_cpu) + ind(d.show_cpu_temp) + ind(d.show_memory);
    let h1 = cpu_memory_rows(d, k1);
    let h2 = cpu_memory_rows(d, k2);
    assert(h1.len() == m);
    assert(h2.len() == m);
    assert((h1 + gpu_rows(d, g1)).take(m as int) =~= h1);
    assert((h1 + gpu_rows(d, g2)).take(m as int) =~= h1);
    assert((h1 + gpu_rows(d, g1)).skip(m as int) =~= gpu_rows(d, g1));
    assert((h2 + gpu_rows(d, g1)).skip(m as int) =~= gpu_rows(d, g1));
}

/// The right column opens with the CPU usage row when it is shown, and the
/// CPU temperature row stands right after it: a value when a CPU sensor
/// gave one, "N/A" otherwise, whatever the GPU.
pub proof fn lemma_cpu_rows_lead(d: DisplayConfig, cpu_temp_known: bool, gpu_available: bool)
    ensures
        d.show_cpu ==> right_rows(d, cpu_temp_known, gpu_available)[0]
            == (PanelRow::CpuUsage { bar: d.show_cpu_bar, percent: d.show_percent_sign }),
        d.show_cpu_temp ==> right_rows(d, cpu_temp_known, gpu_available)[ind(d.show_cpu) as int]
            == if cpu_temp_known { PanelRow::CpuTemp } else { PanelRow::CpuTempUnavailable },
{
    let s1 = row_if(d.show_cpu, PanelRow::CpuUsage { bar: d.show_cpu_bar, percent: d.show_percent_sign });
    let s2 = row_if(d.show_cpu_temp, if cpu_temp_known { PanelRow::CpuTemp } else { PanelRow::CpuTempUnavailable });
    let s3 = row_if(d.show_memory, PanelRow::Memory { bar: d.show_mem_bar, percent: d.show_percent_sign });
    let h = cpu_memory_rows(d, cpu_temp_known);
    let r = right_rows(d, cpu_temp_known, gpu_available);
    assert(s1.len() == ind(d.show_cpu));
    if d.show_cpu {
        assert((s1 + s2)[0] == s1[0]);
        assert(h[0] == (s1 + s2)[0]);
        assert(r[0] == h[0]);
    }
    if d.show_cpu_temp {
        let i = ind(d.show_cpu) as int;
        assert((s1 + s2)[i] == s2[0]);
        assert(h[i] == (s1 + s2)[i]);
        assert(r[i] == h[i]);
    }
}

proof fn lemma_steps_count(d: DisplayConfig, x: SizeStep)
    ensures
        count_of(left_steps(d), x) == ind(d.show_upload && x == SizeStep::Row)
            + ind(d.show_download && x == SizeStep::Row) + ind(d.show_net_graph && x == SizeStep::Graph),
        count_of(right_steps(d), x) == ind(d.show_cpu && x == SizeStep::Row)
            + ind(d.show_cpu && d.show_cpu_bar && x == SizeStep::Bar)
            + ind(d.show_cpu_temp && x == SizeStep::Row)
            + ind(d.show_memory && x == SizeStep::Row)
            + ind(d.show_memory && d.show_mem_bar && x == SizeStep::Bar)
            + ind(d.show_gpu && x == SizeStep::Row)
            + ind(d.show_gpu && d.show_gpu_bar && x == SizeStep::Bar)
            + ind(d.show_gpu_temp && x == SizeStep::Row)
            + ind(d.show_vram && x == SizeStep::Row),
{
    let l1 = step_if(d.show_upload, SizeStep::Row);
    let l2 = step_if(d.show_download, SizeStep::Row);
    let l3 = step_if(d.show_net_graph, SizeStep::Graph);
    lemma_count_concat(l1, l2, x);
    lemma_count_concat(l1 + l2, l3, x);
    lemma_count_step_if(d.show_upload, SizeStep::Row, x);
    lemma_count_step_if(d.show_download, SizeStep::Row, x);
    lemma_count_step_if(d.show_net_graph, SizeStep::Graph, x);
    let r1 = step_if(d.show_cpu, SizeStep::Row);
    let r2 = step_if(d.show_cpu && d.show_cpu_bar, SizeStep::Bar);
    let r3 = step_if(d.show_cpu_temp, SizeStep::Row);
    let r4 = step_if(d.show_memory, SizeStep::Row);
    let r5 = step_if(d.show_memory && d.show_mem_bar, SizeStep::Bar);
    let r6 = step_if(d.show_gpu, SizeStep::Row);
    let r7 = step_if(d.show_gpu && d.show_gpu_bar, SizeStep::Bar);
    let r8 = step_if(d.show_gpu_temp, SizeStep::Row);
    let r9 = step_if(d.show_vram, SizeStep::Row);
    lemma_count_concat(r1, r2, x);
    lemma_count_concat(r1 + r2, r3, x);
    lemma_count_concat(r1 + r2 + r3, r4, x);
    lemma_count_concat(r1 + r2 + r3 + r4, r5, x);
    lemma_count_concat(r1 + r2 + r3 + r4 + r5, r6, x);
    lemma_count_concat(r1 + r2 + r3 + r4 + r5 + r6, r7, x);
    lemma_count_concat(r1 + r2 + r3 + r4 + r5 + r6 + r7, r8, x);
    lemma_count_concat(r1 + r2 + r3 + r4 + r5 + r6 + r7 + r8, r9, x);
    lemma_count_step_if(d.show_cpu, SizeStep::Row, x);
    lemma_count_step_if(d.show_cpu && d.show_cpu_bar, SizeStep::Bar, x);
    lemma_count_step_if(d.show_cpu_temp, SizeStep::Row, x);
    lemma_count_step_if(d.show_memory, SizeStep::Row, x);
    lemma_count_step_if(d.show_memory && d.show_mem_bar, SizeStep::Bar, x);
    lemma_count_step_if(d.show_gpu, SizeStep::Row, x);
    lemma_count_step_if(d.show_gpu && d.show_gpu_bar, SizeStep::Bar, x);
    lemma_count_step_if(d.show_gpu_temp, SizeStep::Row, x);
    lemma_count_step_if(d.show_vram, SizeStep::Row, x);
}

/// The window's height counts one text row per shown text item (the GPU
/// temperature and video memory ones whether or not the GPU can be read),
/// one bar per shown bar under a shown usage row, and the graph when shown.
pub proof fn lemma_size_steps_follow_settings(d: DisplayConfig)
    ensures
        count_of(left_steps(d), SizeStep::Row) == ind(d.show_upload) + ind(d.show_download),
        count_of(left_steps(d), SizeStep::Graph) == ind(d.show_net_graph),
        count_of(left_steps(d), SizeStep::Bar) == 0,
        left_steps(d).len() == ind(d.show_upload) + ind(d.show_download) + ind(d.show_net_graph),
        count_of(right_steps(d), SizeStep::Row) == ind(d.show_cpu) + ind(d.show_cpu_temp) + ind(d.show_memory)
            + ind(d.show_gpu) + ind(d.show_gpu_temp) + ind(d.show_vram),
        count_of(right_steps(d), SizeStep::Bar) == ind(d.show_cpu && d.show_cpu_bar)
            + ind(d.show_memory && d.show_mem_bar) + ind(d.show_gpu && d.show_gpu_bar),
        count_of(right_steps(d), SizeStep::Graph) == 0,
        right_steps(d).len() == ind(d.show_cpu) + ind(d.show_cpu_temp) + ind(d.show_memory)
            + ind(d.show_gpu) + ind(d.show_gpu_temp) + ind(d.show_vram)
            + ind(d.show_cpu && d.show_cpu_bar) + ind(d.show_memory && d.show_mem_bar)
            + ind(d.show_gpu && d.show_gpu_bar),
{
    lemma_steps_count(d, SizeStep::Row);
    lemma_steps_count(d, SizeStep::Bar);
    lemma_steps_count(d, SizeStep::Graph);
}

/// The video memory row reads "N/A" when the total is unknown (zero), and
/// otherwise the memory in use, a slash, the total, both in digits, and
/// " MB".
pub proof fn lemma_vram_label_reads(used_mb: nat, total_mb: nat)
    ensures
        total_mb == 0 ==> vram_label(used_mb, total_mb) == "N/A"@,
        total_mb > 0 ==> exists|a: Seq<char>, b: Seq<char>| #[trigger] (a + "/"@ + b + " MB"@) == vram_label(used_mb, total_mb)
            && digits_value(a) == used_mb && digits_value(b) == total_mb
            && a.len() > 0 && b.len() > 0
            && (forall|i: int| 0 <= i < a.len() ==> #[trigger] is_digit(a[i]))
            && (forall|i: int| 0 <= i < b.len() ==> #[trigger] is_digit(b[i])),
{
    lemma_decimal_reads_back(used_mb);
    lemma_decimal_reads_back(total_mb);
    if total_mb > 0 {
        assert(decimal(used_mb) + "/"@ + decimal(total_mb) + " MB"@ == vram_label(used_mb, total_mb));
    }
}

} // verus!
