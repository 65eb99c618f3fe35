use vaporwall::layout::{compute_payloads, is_listed_display, select_monitors, MonitorGeometry, MonitorPayload};
use vaporwall::process::{other_pids, plan_processes, wants_reload, ProcessPlan};

fn mon(conn: Option<&str>, x: i32, y: i32, w: i32, h: i32) -> MonitorGeometry {
    MonitorGeometry { connector: conn.map(|c| c.to_string()), x, y, width: w, height: h }
}

fn monitors() -> Vec<MonitorGeometry> {
    vec![
        mon(Some("DP-1"), 0, 0, 1920, 1080),
        mon(Some("HDMI-1"), 1920, 0, 2560, 1440),
        mon(None, -1280, 100, 1280, 1024),
    ]
}

fn fields(p: &MonitorPayload) -> (String, i32, i32, i32, i32, i32, i32) {
    (p.mode.clone(), p.total_width, p.total_height, p.view_x, p.view_y, p.view_width, p.view_height)
}

fn xs(ms: &[MonitorGeometry]) -> Vec<i32> {
    ms.iter().map(|m| m.x).collect()
}

#[test]
fn selection_all() {
    assert_eq!(xs(&select_monitors("all", monitors())), vec![0, 1920, -1280]);
}

#[test]
fn selection_by_list() {
    assert_eq!(xs(&select_monitors("DP-1, HDMI-1", monitors())), vec![0, 1920]);
    assert_eq!(xs(&select_monitors(" HDMI-1 ,x", monitors())), vec![1920]);
    assert_eq!(xs(&select_monitors("", monitors())), Vec::<i32>::new());
    assert_eq!(xs(&select_monitors("DP", monitors())), Vec::<i32>::new());
    assert_eq!(xs(&select_monitors("ALL", monitors())), Vec::<i32>::new());
}

#[test]
fn listed_display_trims_unicode_space() {
    assert!(is_listed_display("DP-1,\tHDMI-1\u{3000}", "HDMI-1"));
    assert!(is_listed_display("DP-1,,HDMI-1", ""));
    assert!(!is_listed_display("DP-1,HDMI-1", ""));
    assert!(is_listed_display(" ", ""));
    assert!(!is_listed_display("DP-1 HDMI-1", "HDMI-1"));
    for list in ["a, b", " a ,b,", "\u{a0}a\u{2003}", "a;b", ""] {
        for name in ["a", "b", "", "a;b"] {
            let expected = list.split(',').map(|s| s.trim()).collect::<Vec<_>>().contains(&name);
            assert_eq!(is_listed_display(list, name), expected, "{:?} {:?}", list, name);
        }
    }
}

#[test]
fn span_layout_without_centre() {
    let sel = select_monitors("DP-1,HDMI-1", monitors());
    let p = compute_payloads(&sel, "span", "auto");
    assert_eq!(p.len(), 2);
    assert_eq!(fields(&p[0]), ("span".to_string(), 4480, 1440, 0, 0, 1920, 1080));
    assert_eq!(fields(&p[1]), ("span".to_string(), 4480, 1440, 1920, 0, 2560, 1440));
}

#[test]
fn span_layout_negative_coordinates() {
    let sel = vec![mon(Some("DP-1"), 0, 0, 1920, 1080), mon(None, -1280, 100, 1280, 1024)];
    let p = compute_payloads(&sel, "span", "auto");
    assert_eq!(fields(&p[0]), ("span".to_string(), 3200, 1124, 1280, 0, 1920, 1080));
    assert_eq!(fields(&p[1]), ("span".to_string(), 3200, 1124, 0, 100, 1280, 1024));
}

#[test]
fn span_layout_with_centre_display() {
    let sel = select_monitors("DP-1,HDMI-1", monitors());
    let p = compute_payloads(&sel, "span", "HDMI-1");
    assert_eq!(fields(&p[0]), ("span".to_string(), 4480, 1440, -960, 0, 1920, 1080));
    assert_eq!(fields(&p[1]), ("span".to_string(), 4480, 1440, 960, 0, 2560, 1440));
    // the centre display's view starts half the span left of the middle
    assert_eq!(p[1].view_x, 4480 / 2 - 2560 / 2);
}

#[test]
fn centre_display_missing_or_odd() {
    let sel = select_monitors("all", monitors());
    let p = compute_payloads(&sel, "span", "eDP-1");
    assert_eq!(p[0].view_x, 1280);
    let sel = vec![mon(Some("A"), 0, 0, 1921, 10), mon(Some("B"), 1921, 0, 1000, 10)];
    let p = compute_payloads(&sel, "span", "A");
    // middle of A is 960, middle of the span is 1460
    assert_eq!(p[0].view_x, -(960 - 1460));
    assert_eq!(p[1].view_x, 1921 + 500);
}

#[test]
fn centre_ignored_outside_span() {
    let sel = select_monitors("DP-1,HDMI-1", monitors());
    let p = compute_payloads(&sel, "duplicate", "HDMI-1");
    assert_eq!(fields(&p[0]), ("duplicate".to_string(), 1920, 1080, 0, 0, 1920, 1080));
    assert_eq!(fields(&p[1]), ("duplicate".to_string(), 2560, 1440, 0, 0, 2560, 1440));
    let p = compute_payloads(&sel, "Span", "auto");
    assert_eq!(p[1].mode, "duplicate");
}

#[test]
fn empty_layout() {
    assert!(compute_payloads(&Vec::new(), "span", "auto").is_empty());
}

#[test]
fn views_inside_span_example() {
    let sel = monitors();
    let p = compute_payloads(&sel, "span", "auto");
    for q in &p {
        assert!(q.view_x >= 0 && q.view_x + q.view_width <= q.total_width);
        assert!(q.view_y >= 0 && q.view_y + q.view_height <= q.total_height);
    }
    assert_eq!(p[0].view_x - p[1].view_x, sel[0].x - sel[1].x);
}

#[test]
fn pid_lines() {
    let out = b"123\n456\r\n789\nabc\n+12\n\n42\r";
    assert_eq!(other_pids(out, 456), vec![123, 789, 12]);
    assert_eq!(other_pids(b"", 1), Vec::<u32>::new());
    assert_eq!(other_pids(b"7\r\n8", 1), vec![7, 8]);
    assert_eq!(other_pids(b"\xff1\n2", 1), vec![2]);
    assert_eq!(other_pids(b"5\n5\n", 5), Vec::<u32>::new());
    for text in ["1\n2\r\n3\r", "\n\n4", "99999999999\n3", " 4\n5 "] {
        let expected: Vec<u32> = text.lines().filter_map(|l| l.parse::<u32>().ok()).filter(|p| *p != 3).collect();
        assert_eq!(other_pids(text.as_bytes(), 3), expected, "{:?}", text);
    }
}

#[test]
fn reload_flag() {
    assert!(wants_reload(&vec!["vaporwall".to_string(), "-r".to_string()]));
    assert!(!wants_reload(&vec!["vaporwall".to_string(), "-rr".to_string()]));
    assert!(!wants_reload(&vec![]));
}

#[test]
fn process_plans() {
    assert!(matches!(plan_processes(true, vec![]), ProcessPlan::NothingToReload));
    match plan_processes(true, vec![3, 4]) {
        ProcessPlan::SignalReload(p) => assert_eq!(p, vec![3, 4]),
        _ => panic!("expected a reload"),
    }
    match plan_processes(false, vec![]) {
        ProcessPlan::Replace(p) => assert!(p.is_empty()),
        _ => panic!("expected a replacement"),
    }
    match plan_processes(false, vec![9]) {
        ProcessPlan::Replace(p) => assert_eq!(p, vec![9]),
        _ => panic!("expected a replacement"),
    }
}
