use vstd::prelude::*;
use crate::settings::TaskbarSide;
use crate::text::{contains_seq, lowercase};

verus! {

/// A screen rectangle in physical pixels.
#[derive(Debug, Clone, Copy, PartialEq, Eq, Structural)]
pub struct Rect {
    pub left: i32,
    pub top: i32,
    pub right: i32,
    pub bottom: i32,
}

impl Default for Rect {
    fn default() -> (r: Rect)
        ensures
            r == (Rect { left: 0, top: 0, right: 0, bottom: 0 }),
    {
        Rect { left: 0, top: 0, right: 0, bottom: 0 }
    }
}

pub open spec fn width_of(r: Rect) -> int {
    r.right - r.left
}

pub open spec fn height_of(r: Rect) -> int {
    r.bottom - r.top
}

/// A coordinate or size within ±2^28. Every value the placement computes on
/// the way is a sum or difference of a few inputs; with each input in this
/// range none of them leaves `i32`, which is what the proofs below rely on.
/// Screen coordinates and window sizes lie far inside it (a Windows virtual
/// screen spans tens of thousands of pixels, not hundreds of millions), so
/// it turns away no geometry that a real display reports.
pub open spec fn coord(v: int) -> bool {
    -0x1000_0000 <= v <= 0x1000_0000
}

pub open spec fn rect_in_range(r: Rect) -> bool {
    coord(r.left as int) && coord(r.top as int) && coord(r.right as int) && coord(r.bottom as int)
}

impl Rect {
    pub fn width(self) -> (w: i32)
        requires
            i32::MIN <= width_of(self) <= i32::MAX,
        ensures
            w == width_of(self),
    {
        self.right - self.left
    }

    pub fn height(self) -> (h: i32)
        requires
            i32::MIN <= height_of(self) <= i32::MAX,
        ensures
            h == height_of(self),
    {
        self.bottom - self.top
    }
}

fn width64(r: Rect) -> (w: i64)
    ensures
        w == width_of(r),
{
    r.right as i64 - r.left as i64
}

fn height64(r: Rect) -> (h: i64)
    ensures
        h == height_of(r),
{
    r.bottom as i64 - r.top as i64
}

/// What the OS reports of the primary taskbar.
#[derive(Debug, Clone, Copy, PartialEq, Eq, Structural)]
pub struct TaskbarGeometry {
    pub taskbar: Rect,
    /// The notification area, when it has a positive size.
    pub tray: Option<Rect>,
    /// The task button strip.
    pub task_buttons: Option<Rect>,
    pub windows_11: bool,
}

/// Where and how large the widget window is.
#[derive(Debug, Clone, Copy, PartialEq, Eq, Structural)]
pub struct WidgetTarget {
    pub x: i32,
    pub y: i32,
    pub width: u32,
    pub height: u32,
}

/// A window of another program that sits on the taskbar.
#[derive(Debug, Clone, Copy, PartialEq, Eq, Structural)]
pub struct ExternalWindow {
    pub hwnd: isize,
    pub rect: Rect,
}

// ------------------------------------------------------------------ alignment

/// Horizontal position of a widget of `width` pixels inside the region
/// `[region_start, region_end]`, keeping `gap` pixels of margin. When the
/// region is too narrow the widget never starts before `region_start + gap`.
pub open spec fn spec_aligned_x(region_start: int, region_end: int, width: int, gap: int, alignment: TaskbarSide) -> int {
    let left = region_start + gap;
    let right = if region_end - width - gap >= left {
        region_end - width - gap
    } else {
        left
    };
    match alignment {
        TaskbarSide::Left => left,
        TaskbarSide::Right => right,
    }
}

pub fn aligned_x(region_start: i32, region_end: i32, width: i32, gap: i32, alignment: TaskbarSide) -> (x: i32)
    requires
        i32::MIN <= region_start + gap <= i32::MAX,
        i32::MIN <= region_end - width - gap <= i32::MAX,
        i32::MIN <= region_end - width <= i32::MAX,
    ensures
        x == spec_aligned_x(region_start as int, region_end as int, width as int, gap as int, alignment),
{
    let left = region_start + gap;
    let candidate = region_end - width - gap;
    let right = if candidate >= left {
        candidate
    } else {
        left
    };
    match alignment {
        TaskbarSide::Left => left,
        TaskbarSide::Right => right,
    }
}

/// The region and alignment in effect: Windows 11 honours the preferences,
/// Windows 10 keeps the widget left of the tray.
pub open spec fn spec_effective_layout(windows_11: bool, region: TaskbarSide, alignment: TaskbarSide) -> (TaskbarSide, TaskbarSide) {
    if windows_11 {
        (region, alignment)
    } else {
        (TaskbarSide::Right, TaskbarSide::Right)
    }
}

pub fn effective_layout(windows_11: bool, region: TaskbarSide, alignment: TaskbarSide) -> (r: (TaskbarSide, TaskbarSide))
    ensures
        r == spec_effective_layout(windows_11, region, alignment),
{
    if windows_11 {
        (region, alignment)
    } else {
        (TaskbarSide::Right, TaskbarSide::Right)
    }
}

/// The rectangle covers a `width` × `height` primary screen, allowing one
/// pixel of slack on every edge.
pub open spec fn spec_covers_primary_screen(rect: Rect, width: int, height: int) -> bool {
    &&& width > 0
    &&& height > 0
    &&& rect.left <= 1
    &&& rect.top <= 1
    &&& rect.right >= width - 1
    &&& rect.bottom >= height - 1
}

pub fn covers_primary_screen(rect: Rect, width: i32, height: i32) -> (b: bool)
    ensures
        b == spec_covers_primary_screen(rect, width as int, height as int),
{
    width > 0 && height > 0 && rect.left <= 1 && rect.top <= 1 && rect.right as i64 >= width as i64 - 1
        && rect.bottom as i64 >= height as i64 - 1
}


/// The widget never starts before its region's start plus the gap, and
/// when the region has room it ends at least a gap before the region's end.
pub proof fn law_aligned_within_region(start: int, end: int, width: int, gap: int, alignment: TaskbarSide)
    ensures
        spec_aligned_x(start, end, width, gap, alignment) >= start + gap,
        end - width - gap >= start + gap ==> spec_aligned_x(start, end, width, gap, alignment) + width + gap <= end,
{
}

// ------------------------------------------------------------------ taskbar discovery

/// The rectangle has a positive width and height.
pub open spec fn has_area(r: Rect) -> bool {
    width_of(r) > 0 && height_of(r) > 0
}

/// The taskbar as found from its window rectangles and the OS build: no
/// taskbar rectangle, no geometry; a tray without area counts as absent;
/// build 22000 and later is Windows 11.
pub open spec fn spec_geometry(taskbar: Option<Rect>, tray: Option<Rect>, task_buttons: Option<Rect>, build: Option<u32>) -> Option<TaskbarGeometry> {
    match taskbar {
        None => None,
        Some(t) => Some(TaskbarGeometry {
            taskbar: t,
            tray: match tray {
                Some(r) => if has_area(r) {
                    Some(r)
                } else {
                    None
                },
                None => None,
            },
            task_buttons,
            windows_11: build matches Some(b) && b >= 22_000,
        }),
    }
}

/// Assembles the taskbar geometry from what the OS reported: the taskbar
/// window's rectangle, the tray's, the task buttons', and the OS build number
/// when it could be read.
pub fn geometry(taskbar: Option<Rect>, tray: Option<Rect>, task_buttons: Option<Rect>, build: Option<u32>) -> (g: Option<TaskbarGeometry>)
    ensures
        g == spec_geometry(taskbar, tray, task_buttons, build),
{
    let t = match taskbar {
        Some(t) => t,
        None => return None,
    };
    let tray = match tray {
        Some(r) => if width64(r) > 0 && height64(r) > 0 {
            Some(r)
        } else {
            None
        },
        None => None,
    };
    let windows_11 = match build {
        Some(b) => b >= 22_000,
        None => false,
    };
    Some(TaskbarGeometry { taskbar: t, tray, task_buttons, windows_11 })
}

/// A child window of the taskbar: its class name and rectangle.
pub struct ChildWindow {
    pub class_name: String,
    pub rect: Option<Rect>,
}

pub open spec fn is_task_list(c: ChildWindow) -> bool {
    c.class_name@ == "MSTaskListWClass"@
}

pub open spec fn is_task_switcher(c: ChildWindow) -> bool {
    c.class_name@ == "MSTaskSwWClass"@
}

/// The task-button rectangle after scanning `children` in order, and whether
/// the scan stopped: the last task-list or task-switcher window with a
/// rectangle wins, and the scan stops at a task list that has one.
pub open spec fn task_button_scan(children: Seq<ChildWindow>) -> (Option<Rect>, bool)
    decreases children.len(),
{
    if children.len() == 0 {
        (None, false)
    } else {
        let before = task_button_scan(children.drop_last());
        let c = children.last();
        if before.1 {
            before
        } else if (is_task_list(c) || is_task_switcher(c)) && c.rect is Some {
            (c.rect, is_task_list(c))
        } else {
            before
        }
    }
}

/// The task-button strip among the taskbar's child windows, enumerated in order.
pub fn task_buttons(children: &Vec<ChildWindow>) -> (r: Option<Rect>)
    ensures
        r == task_button_scan(children@).0,
{
    let mut found: Option<Rect> = None;
    let mut stopped = false;
    let mut i: usize = 0;
    while i < children.len()
        invariant
            i <= children@.len(),
            (found, stopped) == task_button_scan(children@.take(i as int)),
        decreases children@.len() - i,
    {
        assert(children@.take(i + 1).drop_last() =~= children@.take(i as int));
        assert(children@.take(i + 1).last() == children@[i as int]);
        if !stopped {
            let c = &children[i];
            let list = c.class_name == String::from_str("MSTaskListWClass");
            let switcher = c.class_name == String::from_str("MSTaskSwWClass");
            if (list || switcher) && c.rect.is_some() {
                found = c.rect;
                stopped = list;
            }
        }
        i = i + 1;
    }
    assert(children@.take(children@.len() as int) =~= children@);
    found
}

/// Windows 11 is the generation of a Windows 11 taskbar; anything else,
/// including no taskbar, counts as Windows 10.
pub fn windows_generation(geometry: Option<TaskbarGeometry>) -> (s: &'static str)
    ensures
        s@ == (if geometry matches Some(g) && g.windows_11 {
            "windows11"@
        } else {
            "windows10"@
        }),
{
    match geometry {
        Some(g) => if g.windows_11 {
            "windows11"
        } else {
            "windows10"
        },
        None => "windows10",
    }
}

/// The taskbar assumed when the OS cannot be asked: 48 pixels high along the
/// bottom of a `width` × `height` primary monitor.
pub fn fallback_geometry(width: u32, height: u32) -> (g: TaskbarGeometry)
    requires
        (height as i32) - 48 >= i32::MIN,
    ensures
        g == (TaskbarGeometry {
            taskbar: Rect {
                left: 0,
                top: ((height as i32) - 48) as i32,
                right: width as i32,
                bottom: height as i32,
            },
            tray: None,
            task_buttons: None,
            windows_11: false,
        }),
{
    let h = height as i32;
    TaskbarGeometry {
        taskbar: Rect { left: 0, top: h - 48, right: width as i32, bottom: h },
        tray: None,
        task_buttons: None,
        windows_11: false,
    }
}

// ------------------------------------------------------------------ visibility

/// The window in the foreground.
pub enum Foreground {
    /// No foreground window.
    Nothing,
    /// The taskbar itself.
    Taskbar,
    /// Another window, with its class name and rectangle.
    Window { class_name: String, rect: Option<Rect> },
}

/// The taskbar is on the `screen_width` × `screen_height` screen and at least
/// eight pixels thick.
pub open spec fn taskbar_on_screen(t: Rect, screen_width: int, screen_height: int) -> bool {
    let w = if width_of(t) >= 0 { width_of(t) } else { -width_of(t) };
    let h = if height_of(t) >= 0 { height_of(t) } else { -height_of(t) };
    &&& t.right > 0
    &&& t.bottom > 0
    &&& t.left < screen_width
    &&& t.top < screen_height
    &&& (if w <= h { w } else { h }) >= 8
}

pub open spec fn desktop_class(name: Seq<char>) -> bool {
    name == "Progman"@ || name == "WorkerW"@ || name == "Shell_TrayWnd"@
}

/// The widget hides when the taskbar is missing, hidden or off screen, and
/// when a window other than the desktop covers the whole primary screen.
pub open spec fn spec_should_hide(taskbar: Option<Rect>, screen_width: int, screen_height: int, foreground: Foreground) -> bool {
    match taskbar {
        None => true,
        Some(t) => if !taskbar_on_screen(t, screen_width, screen_height) {
            true
        } else {
            match foreground {
                Foreground::Nothing => false,
                Foreground::Taskbar => false,
                Foreground::Window { class_name, rect } => if desktop_class(class_name@) {
                    false
                } else {
                    rect matches Some(r) && spec_covers_primary_screen(r, screen_width, screen_height)
                },
            }
        },
    }
}

/// Whether to hide the widget. `taskbar` is the visible taskbar's rectangle
/// (`None` when there is no visible taskbar or its rectangle is unknown).
pub fn should_hide_widget(taskbar: Option<Rect>, screen_width: i32, screen_height: i32, foreground: &Foreground) -> (b: bool)
    ensures
        b == spec_should_hide(taskbar, screen_width as int, screen_height as int, *foreground),
{
    let t = match taskbar {
        Some(t) => t,
        None => return true,
    };
    let w = width64(t);
    let h = height64(t);
    let w = if w >= 0 { w } else { -w };
    let h = if h >= 0 { h } else { -h };
    let thickness = if w <= h { w } else { h };
    let on_screen = t.right > 0 && t.bottom > 0 && t.left < screen_width && t.top < screen_height && thickness >= 8;
    if !on_screen {
        return true;
    }
    match foreground {
        Foreground::Nothing => false,
        Foreground::Taskbar => false,
        Foreground::Window { class_name, rect } => {
            if *class_name == String::from_str("Progman") || *class_name == String::from_str("WorkerW")
                || *class_name == String::from_str("Shell_TrayWnd") {
                false
            } else {
                match rect {
                    Some(r) => covers_primary_screen(*r, screen_width, screen_height),
                    None => false,
                }
            }
        },
    }
}

// ------------------------------------------------------------------ Lyricify

/// A running process: its executable name and id.
pub struct ProcessEntry {
    pub name: String,
    pub pid: u32,
}

/// A top-level window, in enumeration order.
#[derive(Clone, Copy)]
pub struct WindowEntry {
    pub hwnd: isize,
    pub visible: bool,
    pub pid: u32,
    pub rect: Option<Rect>,
}

pub open spec fn is_lyricify(p: ProcessEntry) -> bool {
    contains_seq(lowercase(p.name@), "lyricify"@)
}

/// `pid` belongs to one of the first `n` processes, a Lyricify one.
pub open spec fn lyricify_pid_among(processes: Seq<ProcessEntry>, n: int, pid: u32) -> bool {
    exists|i: int| 0 <= i < n && is_lyricify(#[trigger] processes[i]) && processes[i].pid == pid
}

/// `pid` belongs to a Lyricify process.
pub open spec fn lyricify_pid(processes: Seq<ProcessEntry>, pid: u32) -> bool {
    lyricify_pid_among(processes, processes.len() as int, pid)
}

/// A plausible Lyricify bar: visible, owned by Lyricify, overlapping the
/// taskbar, and between 40 × 20 and 1600 pixels wide.
pub open spec fn candidate(processes: Seq<ProcessEntry>, w: WindowEntry, taskbar: Rect) -> bool {
    &&& w.visible
    &&& lyricify_pid(processes, w.pid)
    &&& w.rect matches Some(c)
    &&& c.right > taskbar.left && c.left < taskbar.right
    &&& c.bottom > taskbar.top && c.top < taskbar.bottom
    &&& width_of(c) >= 40 && height_of(c) >= 20 && width_of(c) <= 1600
}

/// The rightmost candidate window; of equally far right ones, the first.
pub open spec fn rightmost_candidate(processes: Seq<ProcessEntry>, ws: Seq<WindowEntry>, taskbar: Rect) -> Option<ExternalWindow>
    decreases ws.len(),
{
    if ws.len() == 0 {
        None
    } else {
        let before = rightmost_candidate(processes, ws.drop_last(), taskbar);
        let w = ws.last();
        if candidate(processes, w, taskbar) && (before is None || w.rect->0.right > before->0.rect.right) {
            Some(ExternalWindow { hwnd: w.hwnd, rect: w.rect->0 })
        } else {
            before
        }
    }
}

proof fn lemma_lyricify_step(processes: Seq<ProcessEntry>, i: int, pid: u32)
    requires
        0 <= i < processes.len(),
    ensures
        lyricify_pid_among(processes, i + 1, pid) == (lyricify_pid_among(processes, i, pid) || (is_lyricify(processes[i]) && processes[i].pid == pid)),
{
    if lyricify_pid_among(processes, i + 1, pid) {
        let k = choose|k: int| 0 <= k < i + 1 && is_lyricify(#[trigger] processes[k]) && processes[k].pid == pid;
        if k < i {
            assert(lyricify_pid_among(processes, i, pid));
        }
    }
    if lyricify_pid_among(processes, i, pid) {
        let k = choose|k: int| 0 <= k < i && is_lyricify(#[trigger] processes[k]) && processes[k].pid == pid;
        assert(0 <= k < i + 1 && is_lyricify(processes[k]) && processes[k].pid == pid);
    }
    if is_lyricify(processes[i]) && processes[i].pid == pid {
        assert(0 <= i < i + 1 && is_lyricify(processes[i]) && processes[i].pid == pid);
    }
}

/// The process ids of Lyricify among `processes`.
fn lyricify_pids(processes: &Vec<ProcessEntry>) -> (pids: Vec<u32>)
    ensures
        forall|pid: u32| #[trigger] pids@.contains(pid) <==> lyricify_pid(processes@, pid),
{
    let mut pids: Vec<u32> = Vec::new();
    let mut i: usize = 0;
    let needle = crate::text::chars_of("lyricify");
    while i < processes.len()
        invariant
            i <= processes@.len(),
            needle@ == "lyricify"@,
            forall|pid: u32| #[trigger] pids@.contains(pid) <==> lyricify_pid_among(processes@, i as int, pid),
        decreases processes@.len() - i,
    {
        let p = &processes[i];
        let name = crate::text::chars_of(p.name.as_str());
        let lower = crate::text::lowercase_chars(name.as_slice());
        let ghost before = pids@;
        let hit = crate::text::contains_exec(lower.as_slice(), needle.as_slice());
        if hit {
            pids.push(p.pid);
        }
        assert forall|pid: u32| #[trigger] pids@.contains(pid) <==> lyricify_pid_among(processes@, i + 1, pid) by {
            lemma_lyricify_step(processes@, i as int, pid);
            if hit {
                assert(pids@ == before.push(p.pid));
                if before.contains(pid) {
                    let j = choose|j: int| 0 <= j < before.len() && before[j] == pid;
                    assert(pids@[j] == pid);
                }
                if pid == p.pid {
                    assert(pids@[before.len() as int] == pid);
                }
                if pids@.contains(pid) {
                    let j = choose|j: int| 0 <= j < pids@.len() && pids@[j] == pid;
                    if j < before.len() {
                        assert(before[j] == pid);
                    }
                }
            }
        }
        i = i + 1;
    }
    pids
}

fn contains_pid(pids: &Vec<u32>, pid: u32) -> (b: bool)
    ensures
        b == pids@.contains(pid),
{
    let mut i: usize = 0;
    while i < pids.len()
        invariant
            i <= pids@.len(),
            forall|k: int| 0 <= k < i ==> pids@[k] != pid,
        decreases pids@.len() - i,
    {
        if pids[i] == pid {
            return true;
        }
        i = i + 1;
    }
    false
}

/// The Lyricify Lite bar on the taskbar: among the visible windows of
/// processes whose name contains "lyricify" (ignoring ASCII case), the
/// plausible one that reaches furthest right.
pub fn lyricify_window(processes: &Vec<ProcessEntry>, windows: &Vec<WindowEntry>, taskbar: Rect) -> (r: Option<ExternalWindow>)
    ensures
        r == rightmost_candidate(processes@, windows@, taskbar),
{
    let pids = lyricify_pids(processes);
    let mut found: Option<ExternalWindow> = None;
    let mut i: usize = 0;
    while i < windows.len()
        invariant
            i <= windows@.len(),
            forall|pid: u32| #[trigger] pids@.contains(pid) <==> lyricify_pid(processes@, pid),
            found == rightmost_candidate(processes@, windows@.take(i as int), taskbar),
        decreases windows@.len() - i,
    {
        assert(windows@.take(i + 1).drop_last() =~= windows@.take(i as int));
        assert(windows@.take(i + 1).last() == windows@[i as int]);
        let w = windows[i];
        if w.visible && contains_pid(&pids, w.pid) {
            match w.rect {
                Some(c) => {
                    let overlap = c.right > taskbar.left && c.left < taskbar.right && c.bottom > taskbar.top
                        && c.top < taskbar.bottom;
                    let cw = width64(c);
                    let ch = height64(c);
                    let plausible = cw >= 40 && ch >= 20 && cw <= 1600;
                    if overlap && plausible {
                        let further = match found {
                            None => true,
                            Some(f) => c.right > f.rect.right,
                        };
                        if further {
                            found = Some(ExternalWindow { hwnd: w.hwnd, rect: c });
                        }
                    }
                },
                None => {},
            }
        }
        i = i + 1;
    }
    assert(windows@.take(windows@.len() as int) =~= windows@);
    found
}

// ------------------------------------------------------------------ placement

/// The widget settings scaled to physical pixels (the scaling and rounding
/// of the user's sizes is done by the caller).
#[derive(Debug, Clone, Copy)]
pub struct ScaledLayout {
    pub width: i32,
    pub requested_height: i32,
    /// The margin kept from region edges (6 logical pixels).
    pub gap: i32,
    /// Room assumed for the tray when its rectangle is unknown (190 logical pixels).
    pub tray_reserve: i32,
    pub horizontal_offset: i32,
    pub vertical_offset: i32,
    pub region: TaskbarSide,
    pub alignment: TaskbarSide,
}

/// A point in physical pixels.
#[derive(Debug, Clone, Copy, PartialEq, Eq, Structural)]
pub struct Point {
    pub x: i32,
    pub y: i32,
}

/// Where the widget goes, and where to move a Lyricify bar so that the two do not overlap.
#[derive(Debug, Clone, Copy, PartialEq, Eq, Structural)]
pub struct Placement {
    pub target: WidgetTarget,
    pub lyricify_to: Option<Point>,
}

/// Division by two rounding toward zero, as Rust's `/` does.
pub open spec fn half(v: int) -> int {
    if v >= 0 {
        v / 2
    } else {
        -((-v) / 2)
    }
}

pub open spec fn abs(v: int) -> int {
    if v >= 0 {
        v
    } else {
        -v
    }
}

pub open spec fn min(a: int, b: int) -> int {
    if a <= b {
        a
    } else {
        b
    }
}

pub open spec fn max(a: int, b: int) -> int {
    if a >= b {
        a
    } else {
        b
    }
}

/// Every coordinate and size that the placement reads is a `coord`: the
/// bound under which its arithmetic cannot overflow (see `coord`).
pub open spec fn layout_in_range(g: TaskbarGeometry, m: ScaledLayout, lyricify: Option<Rect>) -> bool {
    &&& rect_in_range(g.taskbar)
    &&& (g.tray matches Some(r) ==> rect_in_range(r))
    &&& (g.task_buttons matches Some(r) ==> rect_in_range(r))
    &&& (lyricify matches Some(r) ==> rect_in_range(r))
    &&& coord(m.width as int) && coord(m.requested_height as int) && coord(m.gap as int)
    &&& coord(m.tray_reserve as int) && coord(m.horizontal_offset as int) && coord(m.vertical_offset as int)
}

pub open spec fn is_horizontal(t: Rect) -> bool {
    abs(width_of(t)) >= abs(height_of(t))
}

/// The widget's height: the requested height, at least 28 pixels, and on a
/// horizontal taskbar no taller than the taskbar unless that is under 28.
pub open spec fn widget_height(t: Rect, requested: int) -> int {
    if is_horizontal(t) {
        max(min(requested, height_of(t)), 28)
    } else {
        max(requested, 28)
    }
}

/// The region of a horizontal taskbar that the widget is placed in.
pub open spec fn region_bounds(g: TaskbarGeometry, region: TaskbarSide, tray_edge: int) -> (int, int) {
    match region {
        TaskbarSide::Left => (
            g.taskbar.left as int,
            match g.task_buttons {
                Some(b) => b.left as int,
                None => tray_edge,
            },
        ),
        TaskbarSide::Right => (
            match g.task_buttons {
                Some(b) => b.right as int,
                None => g.taskbar.left as int,
            },
            tray_edge,
        ),
    }
}

/// Where the widget goes on the taskbar `g`, with the Lyricify bar
/// `lyricify` present or not. On a horizontal taskbar the widget is aligned
/// in its region (left of the tray, or between the taskbar start and the task
/// buttons), a Lyricify bar is placed beside it, and the widget is centred
/// vertically. On a vertical taskbar it is centred horizontally just above the
/// tray. The user's offsets are added last.
pub open spec fn spec_placement(g: TaskbarGeometry, m: ScaledLayout, lyricify: Option<Rect>, move_lyricify: bool) -> Placement {
    let t = g.taskbar;
    let height = widget_height(t, m.requested_height as int);
    if is_horizontal(t) {
        let tray_edge = match g.tray {
            Some(r) => r.left as int,
            None => t.right - m.tray_reserve,
        };
        let (region, alignment) = spec_effective_layout(g.windows_11, m.region, m.alignment);
        let (start, end) = region_bounds(g, region, tray_edge);
        let min_x = spec_aligned_x(start, end, m.width as int, m.gap as int, TaskbarSide::Left);
        let max_x = spec_aligned_x(start, end, m.width as int, m.gap as int, TaskbarSide::Right);
        let aligned = spec_aligned_x(start, end, m.width as int, m.gap as int, alignment);
        let (widget_x, lyricify_to) = match lyricify {
            None => (aligned, None),
            Some(l) => {
                let ly = t.top + half(height_of(t) - height_of(l));
                if region == TaskbarSide::Left && alignment == TaskbarSide::Left {
                    (min(min_x + width_of(l) + m.gap, max_x), if move_lyricify {
                        Some(Point { x: min_x as i32, y: ly as i32 })
                    } else {
                        None
                    })
                } else {
                    (aligned, if move_lyricify {
                        Some(Point { x: (aligned - width_of(l) - m.gap) as i32, y: ly as i32 })
                    } else {
                        None
                    })
                }
            },
        };
        Placement {
            target: WidgetTarget {
                x: (widget_x + m.horizontal_offset) as i32,
                y: (t.top + half(height_of(t) - height) + m.vertical_offset) as i32,
                width: m.width as u32,
                height: height as u32,
            },
            lyricify_to,
        }
    } else {
        let tray_edge = match g.tray {
            Some(r) => r.top as int,
            None => t.bottom - m.tray_reserve,
        };
        Placement {
            target: WidgetTarget {
                x: (t.left + half(width_of(t) - min(m.width as int, width_of(t))) + m.horizontal_offset) as i32,
                y: (tray_edge - height - 4 + m.vertical_offset) as i32,
                width: m.width as u32,
                height: height as u32,
            },
            lyricify_to: None,
        }
    }
}

fn half_i32(v: i32) -> (r: i32)
    ensures
        r == half(v as int),
{
    v / 2
}

fn widget_height_exec(t: Rect, requested: i32) -> (h: i32)
    requires
        rect_in_range(t),
        coord(requested as int),
    ensures
        h == widget_height(t, requested as int),
        coord(h as int),
{
    let tw = t.width();
    let th = t.height();
    let horizontal = (if tw >= 0 { tw } else { -tw }) >= (if th >= 0 { th } else { -th });
    if horizontal {
        let capped = if requested <= th { requested } else { th };
        if capped >= 28 { capped } else { 28 }
    } else {
        if requested >= 28 { requested } else { 28 }
    }
}

fn horizontal_placement(g: TaskbarGeometry, m: ScaledLayout, lyricify: Option<Rect>, move_lyricify: bool, height: i32) -> (p: Placement)
    requires
        layout_in_range(g, m, lyricify),
        is_horizontal(g.taskbar),
        height == widget_height(g.taskbar, m.requested_height as int),
        coord(height as int),
    ensures
        p == spec_placement(g, m, lyricify, move_lyricify),
{
    let t = g.taskbar;
    let th = t.height();
    let tray_edge = match g.tray {
        Some(r) => r.left,
        None => t.right - m.tray_reserve,
    };
    let (region, alignment) = effective_layout(g.windows_11, m.region, m.alignment);
    let (start, end) = match region {
        TaskbarSide::Left => (t.left, match g.task_buttons {
            Some(b) => b.left,
            None => tray_edge,
        }),
        TaskbarSide::Right => (match g.task_buttons {
            Some(b) => b.right,
            None => t.left,
        }, tray_edge),
    };
    let min_x = aligned_x(start, end, m.width, m.gap, TaskbarSide::Left);
    let max_x = aligned_x(start, end, m.width, m.gap, TaskbarSide::Right);
    let aligned = aligned_x(start, end, m.width, m.gap, alignment);
    let mut widget_x = aligned;
    let mut lyricify_to: Option<Point> = None;
    match lyricify {
        Some(l) => {
            let ly = t.top + half_i32(th - l.height());
            let both_left = match (region, alignment) {
                (TaskbarSide::Left, TaskbarSide::Left) => true,
                _ => false,
            };
            if both_left {
                let beside = min_x + l.width() + m.gap;
                widget_x = if beside <= max_x { beside } else { max_x };
                if move_lyricify {
                    lyricify_to = Some(Point { x: min_x, y: ly });
                }
            } else {
                if move_lyricify {
                    lyricify_to = Some(Point { x: aligned - l.width() - m.gap, y: ly });
                }
            }
        },
        None => {},
    }
    Placement {
        target: WidgetTarget {
            x: widget_x + m.horizontal_offset,
            y: t.top + half_i32(th - height) + m.vertical_offset,
            width: m.width as u32,
            height: height as u32,
        },
        lyricify_to,
    }
}

fn vertical_placement(g: TaskbarGeometry, m: ScaledLayout, lyricify: Option<Rect>, move_lyricify: bool, height: i32) -> (p: Placement)
    requires
        layout_in_range(g, m, lyricify),
        !is_horizontal(g.taskbar),
        height == widget_height(g.taskbar, m.requested_height as int),
        coord(height as int),
    ensures
        p == spec_placement(g, m, lyricify, move_lyricify),
{
    let t = g.taskbar;
    let tw = t.width();
    let tray_edge = match g.tray {
        Some(r) => r.top,
        None => t.bottom - m.tray_reserve,
    };
    let shown = if m.width <= tw { m.width } else { tw };
    Placement {
        target: WidgetTarget {
            x: t.left + half_i32(tw - shown) + m.horizontal_offset,
            y: tray_edge - height - 4 + m.vertical_offset,
            width: m.width as u32,
            height: height as u32,
        },
        lyricify_to: None,
    }
}

/// Places the widget on the taskbar (see `spec_placement`); `move_lyricify`
/// asks for the Lyricify bar's new position as well.
pub fn place_widget(g: TaskbarGeometry, m: ScaledLayout, lyricify: Option<Rect>, move_lyricify: bool) -> (p: Placement)
    requires
        layout_in_range(g, m, lyricify),
    ensures
        p == spec_placement(g, m, lyricify, move_lyricify),
{
    let t = g.taskbar;
    let tw = t.width();
    let th = t.height();
    let horizontal = (if tw >= 0 { tw } else { -tw }) >= (if th >= 0 { th } else { -th });
    let height = widget_height_exec(t, m.requested_height);
    if horizontal {
        horizontal_placement(g, m, lyricify, move_lyricify, height)
    } else {
        vertical_placement(g, m, lyricify, move_lyricify, height)
    }
}

/// Where a popup of `popup_width` × `popup_height` opens next to the widget
/// at (`anchor_x`, `anchor_y`) of `anchor_width` × `anchor_height`: above it
/// when the taskbar is not at the top of the screen, below it otherwise,
/// right-aligned with it, and never closer than 8 pixels to the screen's
/// top-left corner.
pub open spec fn spec_popup_position(anchor_x: int, anchor_y: int, anchor_width: int, anchor_height: int, popup_width: int, popup_height: int, taskbar_top: int) -> (int, int) {
    let y = if taskbar_top > 0 {
        anchor_y - popup_height - 10
    } else {
        anchor_y + anchor_height + 10
    };
    (max(anchor_x + anchor_width - popup_width, 8), max(y, 8))
}

pub open spec fn fits_i32(v: int) -> bool {
    i32::MIN <= v <= i32::MAX
}

/// The popup's position is computable in `i32`: every size converts to
/// `i32` and no sum or difference on the way leaves it.
pub open spec fn popup_computable(anchor_x: int, anchor_y: int, anchor_width: int, anchor_height: int, popup_width: int, popup_height: int, taskbar_top: int) -> bool {
    &&& anchor_width <= i32::MAX && anchor_height <= i32::MAX
    &&& popup_width <= i32::MAX && popup_height <= i32::MAX
    &&& fits_i32(anchor_x + anchor_width) && fits_i32(anchor_x + anchor_width - popup_width)
    &&& taskbar_top > 0 ==> fits_i32(anchor_y - popup_height - 10)
    &&& taskbar_top <= 0 ==> fits_i32(anchor_y + anchor_height + 10)
}

pub fn popup_position(anchor_x: i32, anchor_y: i32, anchor_width: u32, anchor_height: u32, popup_width: u32, popup_height: u32, taskbar_top: i32) -> (p: (i32, i32))
    requires
        popup_computable(anchor_x as int, anchor_y as int, anchor_width as int, anchor_height as int, popup_width as int, popup_height as int, taskbar_top as int),
    ensures
        p.0 == spec_popup_position(anchor_x as int, anchor_y as int, anchor_width as int, anchor_height as int, popup_width as int, popup_height as int, taskbar_top as int).0,
        p.1 == spec_popup_position(anchor_x as int, anchor_y as int, anchor_width as int, anchor_height as int, popup_width as int, popup_height as int, taskbar_top as int).1,
{
    let y = if taskbar_top > 0 {
        anchor_y - popup_height as i32 - 10
    } else {
        anchor_y + anchor_height as i32 + 10
    };
    let x = anchor_x + anchor_width as i32 - popup_width as i32;
    (if x >= 8 { x } else { 8 }, if y >= 8 { y } else { 8 })
}

/// Where the tray menu of `menu_width` × `menu_height` opens at the cursor:
/// its right edge at the cursor, above it when the taskbar is not at the top
/// of the screen, below it otherwise, and at least 8 pixels from the top.
pub open spec fn spec_menu_position(cursor_x: int, cursor_y: int, menu_width: int, menu_height: int, taskbar_top: int) -> (int, int) {
    let y = if taskbar_top > 0 {
        cursor_y - menu_height - 8
    } else {
        cursor_y + 8
    };
    (cursor_x - menu_width, max(y, 8))
}

/// The menu's position is computable in `i32`: both sizes convert to `i32`
/// and no difference or sum on the way leaves it.
pub open spec fn menu_computable(cursor_x: int, cursor_y: int, menu_width: int, menu_height: int, taskbar_top: int) -> bool {
    &&& menu_width <= i32::MAX && menu_height <= i32::MAX
    &&& fits_i32(cursor_x - menu_width)
    &&& taskbar_top > 0 ==> fits_i32(cursor_y - menu_height - 8)
    &&& taskbar_top <= 0 ==> fits_i32(cursor_y + 8)
}

pub fn menu_position(cursor_x: i32, cursor_y: i32, menu_width: u32, menu_height: u32, taskbar_top: i32) -> (p: (i32, i32))
    requires
        menu_computable(cursor_x as int, cursor_y as int, menu_width as int, menu_height as int, taskbar_top as int),
    ensures
        p.0 == spec_menu_position(cursor_x as int, cursor_y as int, menu_width as int, menu_height as int, taskbar_top as int).0,
        p.1 == spec_menu_position(cursor_x as int, cursor_y as int, menu_width as int, menu_height as int, taskbar_top as int).1,
{
    let y = if taskbar_top > 0 {
        cursor_y - menu_height as i32 - 8
    } else {
        cursor_y + 8
    };
    (cursor_x - menu_width as i32, if y >= 8 { y } else { 8 })
}

// ------------------------------------------------------------------ repositioning

/// The state of the loop that keeps the widget on the taskbar.
#[derive(Debug, Clone, Copy, PartialEq, Eq, Structural)]
pub struct Reposition {
    /// The widget is hidden because the taskbar is covered or gone.
    pub suppressed: bool,
    /// The widget has been shown since it was last hidden.
    pub shown: bool,
    /// The target of the current animation.
    pub last_target: Option<WidgetTarget>,
    /// Where the current animation started.
    pub animation_from: Point,
    /// The last position the widget was moved to.
    pub last_applied: Option<Point>,
}

/// What to do about the widget's place among topmost windows.
#[derive(Debug, Clone, Copy, PartialEq, Eq, Structural)]
pub enum ZOrderAction {
    /// Show the widget (it was hidden).
    Show,
    /// Reassert its topmost place.
    KeepVisible,
    /// Nothing while it is moving.
    Nothing,
}

/// The loop's state after a tick that must hide the widget, and whether to hide it now.
pub open spec fn after_hidden(s: Reposition) -> (Reposition, bool) {
    (Reposition { suppressed: true, shown: false, ..s }, !s.suppressed)
}

/// The loop's state after a tick that finds the taskbar usable.
pub open spec fn after_visible(s: Reposition) -> Reposition {
    Reposition { suppressed: false, ..s }
}

/// The loop's state and z-order action after the widget was moved.
pub open spec fn after_settled(s: Reposition, animating: bool) -> (Reposition, ZOrderAction) {
    if !s.shown {
        (Reposition { shown: true, ..s }, ZOrderAction::Show)
    } else if !animating {
        (s, ZOrderAction::KeepVisible)
    } else {
        (s, ZOrderAction::Nothing)
    }
}

/// The loop's state after a target was computed while the widget stood at
/// `current`, and whether that restarted the animation.
pub open spec fn after_target(s: Reposition, target: WidgetTarget, current: Point) -> (Reposition, bool) {
    if s.last_target != Some(target) {
        (Reposition { animation_from: current, last_target: Some(target), ..s }, true)
    } else {
        (s, false)
    }
}

/// The loop's state after the animation put the widget at `at`, and whether
/// the widget must be moved there.
pub open spec fn after_position(s: Reposition, at: Point) -> (Reposition, bool) {
    (Reposition { last_applied: Some(at), ..s }, s.last_applied != Some(at))
}

/// What one pass of the repositioning loop asks of the window system.
#[derive(Debug, Clone, Copy, PartialEq, Eq, Structural)]
pub struct FrameActions {
    /// Hide the widget and its popups.
    pub hide: bool,
    /// Move the widget here.
    pub move_to: Option<Point>,
    /// Show the widget or reassert its topmost place.
    pub z_order: ZOrderAction,
}

/// A pass that finds the taskbar covered or gone: the widget is hidden on
/// the first such pass, and nothing is moved or shown.
pub open spec fn hidden_frame(s: Reposition) -> (Reposition, FrameActions) {
    (after_hidden(s).0, FrameActions { hide: after_hidden(s).1, move_to: None, z_order: ZOrderAction::Nothing })
}

/// A pass that finds the taskbar usable and computed `target`.
pub open spec fn visible_frame(s: Reposition, target: WidgetTarget, current: Point) -> (Reposition, bool) {
    after_target(after_visible(s), target, current)
}

/// The end of a visible pass: the widget goes to `at` (when it is not there
/// already) and is shown or kept on top.
pub open spec fn settled_frame(s: Reposition, at: Point, animating: bool) -> (Reposition, FrameActions) {
    let (placed, moved) = after_position(s, at);
    let (settled, z_order) = after_settled(placed, animating);
    (settled, FrameActions { hide: false, move_to: if moved { Some(at) } else { None }, z_order })
}

impl Reposition {
    pub fn new() -> (r: Reposition)
        ensures
            r == (Reposition {
                suppressed: false,
                shown: false,
                last_target: None,
                animation_from: Point { x: 0, y: 0 },
                last_applied: None,
            }),
    {
        Reposition {
            suppressed: false,
            shown: false,
            last_target: None,
            animation_from: Point { x: 0, y: 0 },
            last_applied: None,
        }
    }

    /// The widget must be hidden: the returned flag says whether to hide it
    /// (and its popups) now, which happens only on the first such tick.
    pub fn on_hidden(self) -> (r: (Reposition, bool))
        ensures
            r == after_hidden(self),
    {
        (Reposition { suppressed: true, shown: false, ..self }, !self.suppressed)
    }

    /// The taskbar is usable again.
    pub fn on_visible(self) -> (r: Reposition)
        ensures
            r == after_visible(self),
    {
        Reposition { suppressed: false, ..self }
    }

    /// A target was computed while the widget stood at `current`: a new
    /// target restarts the animation from there (the flag says so).
    pub fn on_target(self, target: WidgetTarget, current: Point) -> (r: (Reposition, bool))
        ensures
            r == after_target(self, target, current),
    {
        let changed = match self.last_target {
            Some(t) => t != target,
            None => true,
        };
        if changed {
            (Reposition { animation_from: current, last_target: Some(target), ..self }, true)
        } else {
            (self, false)
        }
    }

    /// The animation puts the widget at `at`; it is moved only when that
    /// differs from where it was last put.
    pub fn on_position(self, at: Point) -> (r: (Reposition, bool))
        ensures
            r == after_position(self, at),
    {
        let changed = match self.last_applied {
            Some(p) => p != at,
            None => true,
        };
        (Reposition { last_applied: Some(at), ..self }, changed)
    }

    /// After moving: a widget not shown yet is shown; one at rest gets its
    /// topmost place reasserted; a moving one is left alone.
    pub fn on_settled(self, animating: bool) -> (r: (Reposition, ZOrderAction))
        ensures
            r == after_settled(self, animating),
    {
        if !self.shown {
            (Reposition { shown: true, ..self }, ZOrderAction::Show)
        } else if !animating {
            (self, ZOrderAction::KeepVisible)
        } else {
            (self, ZOrderAction::Nothing)
        }
    }
}

impl Reposition {
    /// A pass of the loop that finds the taskbar covered or gone.
    pub fn hidden_pass(self) -> (r: (Reposition, FrameActions))
        ensures
            r == hidden_frame(self),
    {
        let (state, hide) = self.on_hidden();
        (state, FrameActions { hide, move_to: None, z_order: ZOrderAction::Nothing })
    }

    /// A pass of the loop that finds the taskbar usable and computed `target`
    /// while the widget stood at `current`; the flag says whether the
    /// animation restarts.
    pub fn visible_pass(self, target: WidgetTarget, current: Point) -> (r: (Reposition, bool))
        ensures
            r == visible_frame(self, target, current),
    {
        self.on_visible().on_target(target, current)
    }

    /// The end of a visible pass, with the animation at `at`.
    pub fn settle_pass(self, at: Point, animating: bool) -> (r: (Reposition, FrameActions))
        ensures
            r == settled_frame(self, at, animating),
    {
        let (placed, moved) = self.on_position(at);
        let (settled, z_order) = placed.on_settled(animating);
        (settled, FrameActions { hide: false, move_to: if moved { Some(at) } else { None }, z_order })
    }
}

/// The widget is still moving: animations are on, the animation has not
/// finished, and it did not start at the target.
pub fn is_animating(animations: bool, finished: bool, from: Point, target: WidgetTarget) -> (b: bool)
    ensures
        b == (animations && !finished && !(from.x == target.x && from.y == target.y)),
{
    animations && !finished && !(from.x == target.x && from.y == target.y)
}

/// While the taskbar is covered or gone the widget is neither moved nor
/// shown, and it is hidden on the first pass of such a streak and only then.
pub proof fn law_hidden_passes_move_and_show_nothing(state: Reposition)
    ensures
        hidden_frame(state).1.hide == !state.suppressed,
        hidden_frame(state).1.move_to is None,
        hidden_frame(state).1.z_order == ZOrderAction::Nothing,
        !hidden_frame(hidden_frame(state).0).1.hide,
{
}

/// The loop's state after `n` passes in a row that found the taskbar covered or gone.
pub open spec fn hidden_streak(s: Reposition, n: nat) -> Reposition
    decreases n,
{
    if n == 0 {
        s
    } else {
        hidden_frame(hidden_streak(s, (n - 1) as nat)).0
    }
}

/// However long a hidden streak lasts, every pass after its first asks for
/// nothing at all, and the first visible pass after it shows the widget,
/// moving or not.
pub proof fn law_hidden_streak(state: Reposition, n: nat, target: WidgetTarget, current: Point, at: Point, animating: bool)
    requires
        n >= 1,
    ensures
        hidden_frame(hidden_streak(state, n)).1
            == (FrameActions { hide: false, move_to: None, z_order: ZOrderAction::Nothing }),
        settled_frame(visible_frame(hidden_streak(state, n), target, current).0, at, animating).1.z_order
            == ZOrderAction::Show,
{
    let before = hidden_streak(state, (n - 1) as nat);
    assert(hidden_streak(state, n) == hidden_frame(before).0);
}

/// Whether placement makes room for Lyricify Lite: only when the user
/// leaves coordination on.
pub fn lyricify_to_avoid(coordinate_lyricify: bool, found: Option<ExternalWindow>) -> (r: Option<ExternalWindow>)
    ensures
        r == (if coordinate_lyricify { found } else { None }),
{
    if coordinate_lyricify {
        found
    } else {
        None
    }
}

/// Whether to look for the Lyricify Lite bar again: coordination is on and
/// at least `interval_ms` have passed since the last look.
pub fn lyricify_scan_due(coordinate_lyricify: bool, elapsed_ms: u64, interval_ms: u64) -> (b: bool)
    ensures
        b == (coordinate_lyricify && elapsed_ms >= interval_ms),
{
    coordinate_lyricify && elapsed_ms >= interval_ms
}

/// On a vertical taskbar the widget's visible part stays on the taskbar:
/// before the user's horizontal offset it starts no further left than the
/// taskbar's left edge, and the part of it no wider than the taskbar ends by
/// the right edge, centred with at most one pixel more room on the right.
pub proof fn law_vertical_widget_on_taskbar(g: TaskbarGeometry, m: ScaledLayout, lyricify: Option<Rect>, move_lyricify: bool)
    requires
        layout_in_range(g, m, lyricify),
        abs(g.taskbar.right - g.taskbar.left) < abs(g.taskbar.bottom - g.taskbar.top),
    ensures
        ({
            let t = g.taskbar;
            let x = spec_placement(g, m, lyricify, move_lyricify).target.x - m.horizontal_offset;
            let shown = if m.width <= t.right - t.left { m.width as int } else { t.right - t.left };
            &&& x >= t.left
            &&& (t.left <= t.right && m.width >= 0) ==> {
                &&& x + shown <= t.right
                &&& x - t.left <= t.right - (x + shown) <= x - t.left + 1
            }
        }),
        spec_placement(g, m, lyricify, move_lyricify).lyricify_to is None,
{
}

/// With the taskbar on screen, a window other than the desktop hides the
/// widget exactly when it covers the whole primary screen, one pixel of slack
/// allowed on each of its four edges; no foreground window, or the taskbar
/// itself in the foreground, never hides it; a missing taskbar always does.
pub proof fn law_hidden_only_by_full_screen_windows(
    t: Rect,
    screen_width: int,
    screen_height: int,
    class_name: String,
    r: Rect,
)
    requires
        t.right > 0 && t.bottom > 0 && t.left < screen_width && t.top < screen_height,
        t.right - t.left >= 8 && t.bottom - t.top >= 8,
        class_name@ != "Progman"@ && class_name@ != "WorkerW"@ && class_name@ != "Shell_TrayWnd"@,
    ensures
        spec_should_hide(Some(t), screen_width, screen_height, Foreground::Window { class_name, rect: Some(r) })
            <==> (screen_width > 0 && screen_height > 0 && r.left <= 1 && r.top <= 1
                && r.right >= screen_width - 1 && r.bottom >= screen_height - 1),
        !spec_should_hide(Some(t), screen_width, screen_height, Foreground::Window { class_name, rect: None }),
        !spec_should_hide(Some(t), screen_width, screen_height, Foreground::Nothing),
        !spec_should_hide(Some(t), screen_width, screen_height, Foreground::Taskbar),
        spec_should_hide(None, screen_width, screen_height, Foreground::Window { class_name, rect: Some(r) }),
{
}

/// On a horizontal taskbar the widget is at least 28 pixels tall, no taller
/// than a taskbar of at least that height, exactly as tall as requested when
/// that fits, and centred vertically (before the user's vertical offset) with
/// at most one pixel more room below. On Windows 10 it sits right beside the
/// tray, a gap away, when there is room, and a Lyricify bar that is moved
/// goes right before it, a gap away, centred on the taskbar as well. The
/// Lyricify bar is moved only when asked to and when there is one.
pub proof fn law_horizontal_widget_on_taskbar(g: TaskbarGeometry, m: ScaledLayout, lyricify: Option<Rect>, move_lyricify: bool)
    requires
        layout_in_range(g, m, lyricify),
        abs(g.taskbar.right - g.taskbar.left) >= abs(g.taskbar.bottom - g.taskbar.top),
        g.taskbar.top <= g.taskbar.bottom,
    ensures
        ({
            let t = g.taskbar;
            let p = spec_placement(g, m, lyricify, move_lyricify);
            let th = t.bottom - t.top;
            let h = p.target.height as int;
            let y = p.target.y - m.vertical_offset;
            let x = p.target.x - m.horizontal_offset;
            let start = match g.task_buttons {
                Some(b) => b.right as int,
                None => t.left as int,
            };
            &&& h >= 28
            &&& th >= 28 ==> h <= th
            &&& (28 <= m.requested_height <= th) ==> h == m.requested_height
            &&& h <= th ==> (y - t.top >= 0 && 0 <= (t.bottom - (y + h)) - (y - t.top) <= 1)
            &&& (!move_lyricify || lyricify is None) ==> p.lyricify_to is None
            &&& (!g.windows_11 && lyricify is None && m.width >= 0 && m.gap >= 0) ==> (g.tray is Some
                && g.tray->0.left - m.width - m.gap >= start + m.gap ==> x + m.width + m.gap == g.tray->0.left)
            &&& (!g.windows_11 && move_lyricify) ==> (lyricify matches Some(l) ==> (p.lyricify_to matches Some(q)
                && q.x + (l.right - l.left) + m.gap == x
                && (l.bottom - l.top <= th ==> q.y - t.top >= 0 && 0 <= (t.bottom - (q.y + (l.bottom - l.top))) - (q.y - t.top) <= 1)))
        }),
{
}

} // verus!
